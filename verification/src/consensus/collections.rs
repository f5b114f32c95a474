//! Collection codecs: raw byte vectors, fixed-size arrays, length-prefixed
//! homogeneous sequences, and UTF-8 strings.
//!
//! Every length-prefixed decode computes the would-be allocation size from
//! the declared element count before allocating, and fails closed if it
//! exceeds [`MAX_VEC_SIZE`](crate::consensus::encode::MAX_VEC_SIZE).

use vstd::prelude::*;
use vstd::utf8::decode_utf8;
use vstd::utf8::encode_utf8;
use vstd::utf8::valid_utf8;

use crate::consensus::encode::lemma_varint_bytes_len;
use crate::consensus::encode::u16_dec;
use crate::consensus::encode::u64_dec;
use crate::util::endian::le_bytes;
use crate::util::endian::lemma_le_bytes_len;
use crate::util::text::bytes_to_string;
use crate::consensus::encode::varint_bytes;
use crate::consensus::encode::varint_decode;
use crate::consensus::encode::Cursor;
use crate::consensus::encode::Decodable;
use crate::consensus::encode::Encodable;
use crate::consensus::encode::Error;
use crate::consensus::encode::IoError;
use crate::consensus::encode::ReadExt;
use crate::consensus::encode::VarInt;
use crate::consensus::encode::WriteExt;
use crate::consensus::encode::MAX_VEC_SIZE;

verus! {

/// The concatenated encodings of the elements of a sequence, where `f`
/// gives each element's wire bytes.
pub open spec fn seq_enc<A>(s: Seq<A>, f: spec_fn(A) -> Seq<u8>) -> Seq<u8>
    decreases s.len(),
{
    if s.len() == 0 {
        Seq::empty()
    } else {
        f(s[0]) + seq_enc(s.skip(1), f)
    }
}

/// Concatenating sequences concatenates their encodings.
pub proof fn lemma_seq_enc_concat<A>(a: Seq<A>, b: Seq<A>, f: spec_fn(A) -> Seq<u8>)
    ensures
        seq_enc(a + b, f) == seq_enc(a, f) + seq_enc(b, f),
    decreases a.len(),
{
    if a.len() == 0 {
        assert(a + b =~= b);
        assert(seq_enc(a, f) + seq_enc(b, f) =~= seq_enc(b, f));
    } else {
        assert((a + b).skip(1) =~= a.skip(1) + b);
        lemma_seq_enc_concat(a.skip(1), b, f);
        assert(seq_enc(a + b, f) =~= seq_enc(a, f) + seq_enc(b, f));
    }
}

/// The encoding of a prefix one element longer grows by that element's bytes.
pub proof fn lemma_seq_enc_snoc<A>(s: Seq<A>, i: int, f: spec_fn(A) -> Seq<u8>)
    requires
        0 <= i < s.len(),
    ensures
        seq_enc(s.take(i + 1), f) == seq_enc(s.take(i), f) + f(s[i]),
{
    assert(s.take(i + 1) =~= s.take(i) + seq![s[i]]);
    lemma_seq_enc_concat(s.take(i), seq![s[i]], f);
    assert(seq![s[i]].skip(1) =~= Seq::<A>::empty());
    assert(seq_enc(seq![s[i]], f) == f(s[i]) + seq_enc(Seq::<A>::empty(), f));
    assert(seq_enc(seq![s[i]], f) =~= f(s[i]));
    assert(seq_enc(s.take(i), f) + seq_enc(seq![s[i]], f) =~= seq_enc(s.take(i), f) + f(s[i]));
}

/// An encoded sequence splits at any index into the encodings of its parts.
pub proof fn lemma_seq_enc_split<A>(s: Seq<A>, i: int, f: spec_fn(A) -> Seq<u8>)
    requires
        0 <= i <= s.len(),
    ensures
        seq_enc(s, f) == seq_enc(s.take(i), f) + seq_enc(s.skip(i), f),
{
    assert(s =~= s.take(i) + s.skip(i));
    lemma_seq_enc_concat(s.take(i), s.skip(i), f);
}

/// Decode `n` elements one after another, where `g` is the element decoder:
/// the decoded elements and the total bytes consumed, or the first error.
pub open spec fn seq_dec<B>(
    data: Seq<u8>,
    n: nat,
    g: spec_fn(Seq<u8>) -> Result<(B, int), Error>,
) -> Result<(Seq<B>, int), Error>
    decreases n,
{
    if n == 0 {
        Ok((Seq::empty(), 0))
    } else {
        match g(data) {
            Ok(p) => match seq_dec(data.skip(p.1), (n - 1) as nat, g) {
                Ok(q) => Ok((seq![p.0] + q.0, p.1 + q.1)),
                Err(e) => Err(e),
            },
            Err(e) => Err(e),
        }
    }
}

/// If the element decoder consumes between zero and all of its input, so
/// does the sequence decoder.
pub proof fn lemma_seq_dec_consumes<B>(
    data: Seq<u8>,
    n: nat,
    g: spec_fn(Seq<u8>) -> Result<(B, int), Error>,
)
    requires
        forall|d: Seq<u8>| (#[trigger] g(d)) matches Ok(p) ==> 0 <= p.1 <= d.len(),
    ensures
        seq_dec(data, n, g) matches Ok(q) ==> 0 <= q.1 <= data.len(),
    decreases n,
{
    if n > 0 {
        match g(data) {
            Ok(p) => {
                lemma_seq_dec_consumes(data.skip(p.1), (n - 1) as nat, g);
            },
            Err(e) => {
            },
        }
    }
}

/// The wire bytes of a raw byte sequence: its length, minimally encoded,
/// followed by the bytes themselves.
pub open spec fn bytes_enc(b: Seq<u8>) -> Seq<u8> {
    varint_bytes(b.len() as u64) + b
}

/// What decoding a raw byte sequence yields: a declared count above the
/// allocation ceiling is rejected before anything is allocated for it.
pub open spec fn bytes_dec(data: Seq<u8>) -> Result<(Seq<u8>, int), Error> {
    match varint_decode(data) {
        Ok(p) => {
            let len = p.0.0 as usize;
            if len > MAX_VEC_SIZE {
                Err(Error::OversizedVectorAllocation { requested: len, max: MAX_VEC_SIZE })
            } else if data.len() < p.1 + len {
                Err(Error::Io(IoError::UnexpectedEof))
            } else {
                Ok((data.subrange(p.1, p.1 + len), p.1 + len))
            }
        },
        Err(e) => Err(e),
    }
}

impl Encodable for Vec<u8> {
    open spec fn encoding(&self) -> Seq<u8> {
        bytes_enc(self@)
    }

    open spec fn encodable(&self) -> bool {
        true
    }

    open spec fn enc_error(&self) -> Error {
        Error::NonMinimalVarInt
    }

    fn consensus_encode(&self, s: &mut Vec<u8>) -> (r: Result<usize, Error>) {
        let ghost s0 = s@;
        proof {
            lemma_varint_bytes_len(self@.len() as u64);
        }
        let vi = VarInt(self.len() as u64);
        let vi_len = vi.consensus_encode(s)?;
        s.emit_slice(self.as_slice())?;
        proof {
            assert(s@ =~= s0 + self.encoding());
        }
        Ok(vi_len + self.len())
    }
}

impl Decodable for Vec<u8> {
    open spec fn decode_spec(data: Seq<u8>) -> Result<(Seq<u8>, int), Error> {
        bytes_dec(data)
    }

    proof fn lemma_decode_consumes(data: Seq<u8>) {
    }

    fn consensus_decode(d: &mut Cursor) -> (r: Result<Vec<u8>, Error>) {
        let ghost rem = old(d).remaining();
        let vi = VarInt::consensus_decode(d)?;
        let len = vi.0 as usize;
        if len > MAX_VEC_SIZE {
            return Err(Error::OversizedVectorAllocation { requested: len, max: MAX_VEC_SIZE });
        }
        let ghost k = d.pos - old(d).pos;
        match d.read_slice(len) {
            Ok(v) => {
                proof {
                    assert(d.data@.subrange(old(d).pos + k, old(d).pos + k + len) =~= rem.subrange(
                        k,
                        k + len,
                    ));
                    assert(v.deep_view() =~= v@);
                }
                Ok(v)
            },
            Err(e) => Err(e),
        }
    }
}

impl<const N: usize> Encodable for [u8; N] {
    /// A fixed-size byte array goes on the wire as its raw bytes: the
    /// length is part of the type, so there is no prefix.
    open spec fn encoding(&self) -> Seq<u8> {
        self@
    }

    open spec fn encodable(&self) -> bool {
        true
    }

    open spec fn enc_error(&self) -> Error {
        Error::NonMinimalVarInt
    }

    fn consensus_encode(&self, s: &mut Vec<u8>) -> (r: Result<usize, Error>) {
        s.emit_slice(self.as_slice())?;
        Ok(N)
    }
}

impl<const N: usize> Decodable for [u8; N] {
    open spec fn decode_spec(data: Seq<u8>) -> Result<(Seq<u8>, int), Error> {
        if data.len() < N {
            Err(Error::Io(IoError::UnexpectedEof))
        } else {
            Ok((data.take(N as int), N as int))
        }
    }

    proof fn lemma_decode_consumes(data: Seq<u8>) {
    }

    fn consensus_decode(d: &mut Cursor) -> (r: Result<[u8; N], Error>) {
        let ghost rem = old(d).remaining();
        match d.read_slice(N) {
            Ok(v) => {
                let mut ret: [u8; N] = [0u8; N];
                let mut i: usize = 0;
                while i < N
                    invariant
                        i <= N,
                        v@.len() == N,
                        forall|j: int| 0 <= j < i ==> ret@[j] == v@[j],
                    decreases N - i,
                {
                    ret[i] = v[i];
                    i = i + 1;
                }
                proof {
                    assert(ret@ =~= v@);
                    assert(ret.deep_view() =~= ret@);
                    assert(d.data@.subrange(old(d).pos as int, old(d).pos + N) =~= rem.take(
                        N as int,
                    ));
                }
                Ok(ret)
            },
            Err(e) => Err(e),
        }
    }
}

/// The wire bytes of one 64-bit sequence element.
pub open spec fn u64_enc_fn() -> spec_fn(u64) -> Seq<u8> {
    |v: u64| le_bytes(v as nat, 8)
}

/// The element decoder for 64-bit sequence elements.
pub open spec fn u64_dec_fn() -> spec_fn(Seq<u8>) -> Result<(u64, int), Error> {
    |d: Seq<u8>| u64_dec(d)
}

/// The wire bytes of one 16-bit sequence element.
pub open spec fn u16_enc_fn() -> spec_fn(u16) -> Seq<u8> {
    |v: u16| le_bytes(v as nat, 2)
}

/// The element decoder for 16-bit sequence elements.
pub open spec fn u16_dec_fn() -> spec_fn(Seq<u8>) -> Result<(u16, int), Error> {
    |d: Seq<u8>| u16_dec(d)
}

/// The wire bytes of one raw-byte-sequence element.
pub open spec fn bytes_enc_fn() -> spec_fn(Seq<u8>) -> Seq<u8> {
    |b: Seq<u8>| bytes_enc(b)
}

/// The element decoder for raw-byte-sequence elements.
pub open spec fn bytes_dec_fn() -> spec_fn(Seq<u8>) -> Result<(Seq<u8>, int), Error> {
    |d: Seq<u8>| bytes_dec(d)
}

impl Encodable for Vec<u64> {
    /// A sequence of integers goes on the wire as its element count,
    /// minimally encoded, followed by the elements' encodings in order.
    open spec fn encoding(&self) -> Seq<u8> {
        varint_bytes(self@.len() as u64) + seq_enc(self@, u64_enc_fn())
    }

    open spec fn encodable(&self) -> bool {
        true
    }

    open spec fn enc_error(&self) -> Error {
        Error::NonMinimalVarInt
    }

    fn consensus_encode(&self, s: &mut Vec<u8>) -> (r: Result<usize, Error>) {
        let ghost s0 = s@;
        let ghost whole = self.encoding();
        proof {
            lemma_varint_bytes_len(self@.len() as u64);
        }
        let mut len = VarInt(self.len() as u64).consensus_encode(s)?;
        let mut i: usize = 0;
        proof {
            assert(seq_enc(self@.take(0), u64_enc_fn()) =~= Seq::<u8>::empty());
            assert(s@ =~= s0 + varint_bytes(self@.len() as u64) + seq_enc(
                self@.take(0),
                u64_enc_fn(),
            ));
        }
        while i < self.len()
            invariant
                i <= self@.len(),
                s0.len() + whole.len() <= usize::MAX,
                whole == varint_bytes(self@.len() as u64) + seq_enc(self@, u64_enc_fn()),
                s@ == s0 + varint_bytes(self@.len() as u64) + seq_enc(
                    self@.take(i as int),
                    u64_enc_fn(),
                ),
                len == varint_bytes(self@.len() as u64).len() + seq_enc(
                    self@.take(i as int),
                    u64_enc_fn(),
                ).len(),
            decreases self@.len() - i,
        {
            proof {
                lemma_seq_enc_split(self@, i as int, u64_enc_fn());
                lemma_le_bytes_len(self@[i as int] as nat, 8);
                assert(seq_enc(self@.skip(i as int), u64_enc_fn()) == le_bytes(
                    self@[i as int] as nat,
                    8,
                ) + seq_enc(self@.skip(i as int).skip(1), u64_enc_fn()));
            }
            let n = (self[i]).consensus_encode(s)?;
            proof {
                lemma_seq_enc_snoc(self@, i as int, u64_enc_fn());
                assert(s@ =~= s0 + varint_bytes(self@.len() as u64) + seq_enc(
                    self@.take(i + 1),
                    u64_enc_fn(),
                ));
            }
            len = len + n;
            i = i + 1;
        }
        proof {
            assert(self@.take(self@.len() as int) =~= self@);
            assert(s@ =~= s0 + whole);
        }
        Ok(len)
    }
}

impl Decodable for Vec<u64> {
    /// The would-be allocation size, element count times element width, is
    /// checked with overflow-checked arithmetic against the ceiling before
    /// any element is decoded.
    open spec fn decode_spec(data: Seq<u8>) -> Result<(Seq<u64>, int), Error> {
        match varint_decode(data) {
            Ok(p) => {
                let count = p.0.0 as usize;
                if count * 8 > usize::MAX {
                    Err(Error::ParseFailed("Invalid length"))
                } else if count * 8 > MAX_VEC_SIZE {
                    Err(
                        Error::OversizedVectorAllocation {
                            requested: (count * 8) as usize,
                            max: MAX_VEC_SIZE,
                        },
                    )
                } else {
                    match seq_dec(data.skip(p.1), count as nat, u64_dec_fn()) {
                        Ok(q) => Ok((q.0, p.1 + q.1)),
                        Err(e) => Err(e),
                    }
                }
            },
            Err(e) => Err(e),
        }
    }

    proof fn lemma_decode_consumes(data: Seq<u8>) {
        match varint_decode(data) {
            Ok(p) => {
                let count = p.0.0 as usize;
                if count * 8 <= usize::MAX && count * 8 <= MAX_VEC_SIZE {
                    assert(forall|d: Seq<u8>| (#[trigger] u64_dec_fn()(d)) matches Ok(q) ==> 0
                        <= q.1 <= d.len());
                    lemma_seq_dec_consumes(data.skip(p.1), count as nat, u64_dec_fn());
                }
            },
            Err(e) => {
            },
        }
    }

    #[verifier::loop_isolation(false)]
    fn consensus_decode(d: &mut Cursor) -> (r: Result<Vec<u64>, Error>) {
        let ghost rem0 = old(d).remaining();
        let vi = VarInt::consensus_decode(d)?;
        let count = vi.0 as usize;
        let byte_size = match count.checked_mul(8) {
            Some(b) => b,
            None => {
                return Err(Error::ParseFailed("Invalid length"));
            },
        };
        if byte_size > MAX_VEC_SIZE {
            return Err(Error::OversizedVectorAllocation { requested: byte_size, max: MAX_VEC_SIZE });
        }
        let ghost pos1 = d.pos as int;
        let ghost rem1 = d.remaining();
        proof {
            assert(rem1 =~= rem0.skip(pos1 - old(d).pos));
        }
        let mut ret: Vec<u64> = Vec::with_capacity(count);
        let mut i: usize = 0;
        while i < count
            invariant
                d.wf(),
                d.data@ == old(d).data@,
                i <= count,
                old(d).pos <= pos1 <= d.pos,
                ret@.len() == i,
                rem1 == d.data@.skip(pos1),
                seq_dec(rem1, count as nat, u64_dec_fn()) == (match seq_dec(
                    d.remaining(),
                    (count - i) as nat,
                    u64_dec_fn(),
                ) {
                    Ok(q) => Ok::<(Seq<u64>, int), Error>((ret@ + q.0, (d.pos - pos1) + q.1)),
                    Err(e) => Err::<(Seq<u64>, int), Error>(e),
                }),
            decreases count - i,
        {
            let ghost remi = d.remaining();
            match u64::consensus_decode(d) {
                Ok(v) => {
                    proof {
                        assert(u64_dec_fn()(remi) == u64_dec(remi));
                        assert(d.remaining() =~= remi.skip(8));
                    }
                    ret.push(v);
                    proof {
                        assert(ret@ == ret@.take(i as int).push(v));
                        assert(forall|a: Seq<u64>, x: u64, b: Seq<u64>| #[trigger] (a.push(x) + b)
                            =~= a + (seq![x] + b));
                    }
                },
                Err(e) => {
                    return Err(e);
                },
            }
            i = i + 1;
        }
        proof {
            assert(seq_dec(d.remaining(), 0, u64_dec_fn()) == Ok::<(Seq<u64>, int), Error>((
                Seq::empty(),
                0,
            )));
            assert(ret@ + Seq::<u64>::empty() =~= ret@);
            assert(ret.deep_view() =~= ret@);
        }
        Ok(ret)
    }
}

impl Encodable for Vec<Vec<u8>> {
    /// A sequence of byte vectors goes on the wire as its element count,
    /// minimally encoded, followed by the elements' encodings in order.
    open spec fn encoding(&self) -> Seq<u8> {
        varint_bytes(self@.len() as u64) + seq_enc(self.deep_view(), bytes_enc_fn())
    }

    open spec fn encodable(&self) -> bool {
        true
    }

    open spec fn enc_error(&self) -> Error {
        Error::NonMinimalVarInt
    }

    #[verifier::loop_isolation(false)]
    fn consensus_encode(&self, s: &mut Vec<u8>) -> (r: Result<usize, Error>) {
        let ghost dv = self.deep_view();
        let ghost s0 = s@;
        let ghost whole = self.encoding();
        proof {
            lemma_varint_bytes_len(self@.len() as u64);
            assert(dv.len() == self@.len());
        }
        let mut len = VarInt(self.len() as u64).consensus_encode(s)?;
        let mut i: usize = 0;
        proof {
            assert(seq_enc(dv.take(0), bytes_enc_fn()) =~= Seq::<u8>::empty());
            assert(s@ =~= s0 + varint_bytes(self@.len() as u64) + seq_enc(
                dv.take(0),
                bytes_enc_fn(),
            ));
        }
        while i < self.len()
            invariant
                i <= self@.len(),
                s@ == s0 + varint_bytes(self@.len() as u64) + seq_enc(
                    dv.take(i as int),
                    bytes_enc_fn(),
                ),
                len == varint_bytes(self@.len() as u64).len() + seq_enc(
                    dv.take(i as int),
                    bytes_enc_fn(),
                ).len(),
            decreases self@.len() - i,
        {
            proof {
                lemma_seq_enc_split(dv, i as int, bytes_enc_fn());
                lemma_varint_bytes_len(self@[i as int]@.len() as u64);
                assert(dv[i as int] == self@[i as int]@);
                assert(seq_enc(dv.skip(i as int), bytes_enc_fn()) == bytes_enc(dv[i as int])
                    + seq_enc(dv.skip(i as int).skip(1), bytes_enc_fn()));
            }
            let n = self[i].consensus_encode(s)?;
            proof {
                lemma_seq_enc_snoc(dv, i as int, bytes_enc_fn());
                assert(s@ =~= s0 + varint_bytes(self@.len() as u64) + seq_enc(
                    dv.take(i + 1),
                    bytes_enc_fn(),
                ));
            }
            len = len + n;
            i = i + 1;
        }
        proof {
            assert(dv.take(dv.len() as int) =~= dv);
            assert(s@ =~= s0 + whole);
        }
        Ok(len)
    }
}

impl Decodable for Vec<Vec<u8>> {
    /// The would-be allocation size, element count times the in-memory
    /// element width, is checked with overflow-checked arithmetic against
    /// the ceiling before any element is decoded.
    open spec fn decode_spec(data: Seq<u8>) -> Result<(Seq<Seq<u8>>, int), Error> {
        match varint_decode(data) {
            Ok(p) => {
                let count = p.0.0 as usize;
                let esize = vstd::layout::size_of::<Vec<u8>>();
                if count * esize > usize::MAX {
                    Err(Error::ParseFailed("Invalid length"))
                } else if count * esize > MAX_VEC_SIZE {
                    Err(
                        Error::OversizedVectorAllocation {
                            requested: (count * esize) as usize,
                            max: MAX_VEC_SIZE,
                        },
                    )
                } else {
                    match seq_dec(data.skip(p.1), count as nat, bytes_dec_fn()) {
                        Ok(q) => Ok((q.0, p.1 + q.1)),
                        Err(e) => Err(e),
                    }
                }
            },
            Err(e) => Err(e),
        }
    }

    proof fn lemma_decode_consumes(data: Seq<u8>) {
        match varint_decode(data) {
            Ok(p) => {
                let count = p.0.0 as usize;
                let esize = vstd::layout::size_of::<Vec<u8>>();
                if count * esize <= usize::MAX && count * esize <= MAX_VEC_SIZE {
                    assert forall|d: Seq<u8>|
                        (#[trigger] bytes_dec_fn()(d)) matches Ok(q) ==> 0 <= q.1 <= d.len() by {
                        <Vec<u8> as Decodable>::lemma_decode_consumes(d);
                    }
                    lemma_seq_dec_consumes(data.skip(p.1), count as nat, bytes_dec_fn());
                }
            },
            Err(e) => {
            },
        }
    }

    #[verifier::loop_isolation(false)]
    fn consensus_decode(d: &mut Cursor) -> (r: Result<Vec<Vec<u8>>, Error>) {
        let ghost rem0 = old(d).remaining();
        let vi = VarInt::consensus_decode(d)?;
        let count = vi.0 as usize;
        let byte_size = match count.checked_mul(core::mem::size_of::<Vec<u8>>()) {
            Some(b) => b,
            None => {
                return Err(Error::ParseFailed("Invalid length"));
            },
        };
        if byte_size > MAX_VEC_SIZE {
            return Err(Error::OversizedVectorAllocation { requested: byte_size, max: MAX_VEC_SIZE });
        }
        let ghost pos1 = d.pos as int;
        let ghost rem1 = d.remaining();
        proof {
            assert(rem1 =~= rem0.skip(pos1 - old(d).pos));
        }
        let mut ret: Vec<Vec<u8>> = Vec::with_capacity(count);
        let mut i: usize = 0;
        proof {
            assert(ret.deep_view() =~= Seq::<Seq<u8>>::empty());
        }
        while i < count
            invariant
                d.wf(),
                d.data@ == old(d).data@,
                i <= count,
                old(d).pos <= pos1 <= d.pos,
                ret@.len() == i,
                seq_dec(rem1, count as nat, bytes_dec_fn()) == (match seq_dec(
                    d.remaining(),
                    (count - i) as nat,
                    bytes_dec_fn(),
                ) {
                    Ok(q) => Ok::<(Seq<Seq<u8>>, int), Error>((
                        ret.deep_view() + q.0,
                        (d.pos - pos1) + q.1,
                    )),
                    Err(e) => Err::<(Seq<Seq<u8>>, int), Error>(e),
                }),
            decreases count - i,
        {
            let ghost remi = d.remaining();
            let ghost dv0 = ret.deep_view();
            match Vec::<u8>::consensus_decode(d) {
                Ok(v) => {
                    proof {
                        assert(bytes_dec_fn()(remi) == bytes_dec(remi));
                        <Vec<u8> as Decodable>::lemma_decode_consumes(remi);
                        match bytes_dec(remi) {
                            Ok(p) => {
                                assert(d.remaining() =~= remi.skip(p.1));
                            },
                            Err(e) => {
                            },
                        }
                    }
                    ret.push(v);
                    proof {
                        assert(ret.deep_view() =~= dv0.push(v.deep_view()));
                        assert(forall|a: Seq<Seq<u8>>, x: Seq<u8>, b: Seq<Seq<u8>>| #[trigger] (
                        a.push(x) + b) =~= a + (seq![x] + b));
                    }
                },
                Err(e) => {
                    return Err(e);
                },
            }
            i = i + 1;
        }
        proof {
            assert(seq_dec(d.remaining(), 0, bytes_dec_fn()) == Ok::<(Seq<Seq<u8>>, int), Error>((
                Seq::empty(),
                0,
            )));
            assert(ret.deep_view() + Seq::<Seq<u8>>::empty() =~= ret.deep_view());
        }
        Ok(ret)
    }
}

impl Encodable for [u16; 8] {
    /// Eight 16-bit integers, each in little-endian order, with no prefix.
    open spec fn encoding(&self) -> Seq<u8> {
        seq_enc(self@, u16_enc_fn())
    }

    open spec fn encodable(&self) -> bool {
        true
    }

    open spec fn enc_error(&self) -> Error {
        Error::NonMinimalVarInt
    }

    #[verifier::loop_isolation(false)]
    fn consensus_encode(&self, s: &mut Vec<u8>) -> (r: Result<usize, Error>) {
        let ghost s0 = s@;
        proof {
            lemma_seq_enc_u16_len(self@);
            assert(seq_enc(self@.take(0), u16_enc_fn()) =~= Seq::<u8>::empty());
            assert(s@ =~= s0 + seq_enc(self@.take(0), u16_enc_fn()));
        }
        let mut i: usize = 0;
        while i < 8
            invariant
                i <= 8,
                s@ == s0 + seq_enc(self@.take(i as int), u16_enc_fn()),
            decreases 8 - i,
        {
            proof {
                lemma_seq_enc_split(self@, i as int, u16_enc_fn());
                lemma_seq_enc_u16_len(self@.take(i as int));
                lemma_le_bytes_len(self@[i as int] as nat, 2);
                assert(seq_enc(self@.skip(i as int), u16_enc_fn()) == le_bytes(
                    self@[i as int] as nat,
                    2,
                ) + seq_enc(self@.skip(i as int).skip(1), u16_enc_fn()));
            }
            let c = *vstd::array::array_index_get(self, i);
            let n = c.consensus_encode(s)?;
            proof {
                lemma_seq_enc_snoc(self@, i as int, u16_enc_fn());
                assert(s@ =~= s0 + seq_enc(self@.take(i + 1), u16_enc_fn()));
            }
            i = i + 1;
        }
        proof {
            assert(self@.take(8) =~= self@);
        }
        Ok(16)
    }
}

/// Eight 16-bit elements encode into sixteen bytes.
pub proof fn lemma_seq_enc_u16_len(s: Seq<u16>)
    ensures
        seq_enc(s, u16_enc_fn()).len() == 2 * s.len(),
    decreases s.len(),
{
    if s.len() > 0 {
        lemma_le_bytes_len(s[0] as nat, 2);
        lemma_seq_enc_u16_len(s.skip(1));
    }
}

impl Decodable for [u16; 8] {
    open spec fn decode_spec(data: Seq<u8>) -> Result<(Seq<u16>, int), Error> {
        match seq_dec(data, 8, u16_dec_fn()) {
            Ok(q) => Ok((q.0, q.1)),
            Err(e) => Err(e),
        }
    }

    proof fn lemma_decode_consumes(data: Seq<u8>) {
        lemma_seq_dec_consumes(data, 8, u16_dec_fn());
    }

    #[verifier::loop_isolation(false)]
    fn consensus_decode(d: &mut Cursor) -> (r: Result<[u16; 8], Error>) {
        let ghost rem0 = old(d).remaining();
        let mut ret: [u16; 8] = [0u16; 8];
        let mut i: usize = 0;
        while i < 8
            invariant
                d.wf(),
                d.data@ == old(d).data@,
                i <= 8,
                old(d).pos <= d.pos,
                seq_dec(rem0, 8, u16_dec_fn()) == (match seq_dec(
                    d.remaining(),
                    (8 - i) as nat,
                    u16_dec_fn(),
                ) {
                    Ok(q) => Ok::<(Seq<u16>, int), Error>((
                        ret@.take(i as int) + q.0,
                        (d.pos - old(d).pos) + q.1,
                    )),
                    Err(e) => Err::<(Seq<u16>, int), Error>(e),
                }),
            decreases 8 - i,
        {
            let ghost remi = d.remaining();
            let ghost r0 = ret@;
            match u16::consensus_decode(d) {
                Ok(v) => {
                    proof {
                        assert(u16_dec_fn()(remi) == u16_dec(remi));
                        assert(d.remaining() =~= remi.skip(2));
                    }
                    ret[i] = v;
                    proof {
                        assert(ret@.take(i + 1) =~= r0.take(i as int).push(v));
                        assert(forall|a: Seq<u16>, x: u16, b: Seq<u16>| #[trigger] (a.push(x) + b)
                            =~= a + (seq![x] + b));
                    }
                },
                Err(e) => {
                    return Err(e);
                },
            }
            i = i + 1;
        }
        proof {
            assert(seq_dec(d.remaining(), 0, u16_dec_fn()) == Ok::<(Seq<u16>, int), Error>((
                Seq::empty(),
                0,
            )));
            assert(ret@.take(8) =~= ret@);
            assert(ret@ + Seq::<u16>::empty() =~= ret@);
            assert(ret.deep_view() =~= ret@);
        }
        Ok(ret)
    }
}

impl Encodable for String {
    /// A string goes on the wire as its UTF-8 byte length, minimally
    /// encoded, followed by its UTF-8 bytes.
    open spec fn encoding(&self) -> Seq<u8> {
        bytes_enc(encode_utf8(self@))
    }

    open spec fn encodable(&self) -> bool {
        true
    }

    open spec fn enc_error(&self) -> Error {
        Error::NonMinimalVarInt
    }

    fn consensus_encode(&self, s: &mut Vec<u8>) -> (r: Result<usize, Error>) {
        let ghost s0 = s@;
        let b = self.as_str().as_bytes();
        proof {
            lemma_varint_bytes_len(b@.len() as u64);
        }
        let vi_len = VarInt(b.len() as u64).consensus_encode(s)?;
        s.emit_slice(b)?;
        proof {
            assert(s@ =~= s0 + self.encoding());
        }
        Ok(vi_len + b.len())
    }
}

/// What decoding a string yields: the raw bytes are decoded first, and
/// bytes that are not valid UTF-8 are a parse failure, never a panic or a
/// lossy substitution.
pub open spec fn string_dec(data: Seq<u8>) -> Result<(Seq<char>, int), Error> {
    match bytes_dec(data) {
        Ok(p) => if valid_utf8(p.0) {
            Ok((decode_utf8(p.0), p.1))
        } else {
            Err(Error::ParseFailed("String was not valid UTF-8"))
        },
        Err(e) => Err(e),
    }
}

impl Decodable for String {
    open spec fn decode_spec(data: Seq<u8>) -> Result<(Seq<char>, int), Error> {
        string_dec(data)
    }

    proof fn lemma_decode_consumes(data: Seq<u8>) {
        <Vec<u8> as Decodable>::lemma_decode_consumes(data);
    }

    fn consensus_decode(d: &mut Cursor) -> (r: Result<String, Error>) {
        let ghost rem0 = old(d).remaining();
        let bytes = Vec::<u8>::consensus_decode(d)?;
        proof {
            assert(bytes.deep_view() =~= bytes@);
        }
        match bytes_to_string(bytes) {
            Some(st) => Ok(st),
            None => Err(Error::ParseFailed("String was not valid UTF-8")),
        }
    }
}

} // verus!
