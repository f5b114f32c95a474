//! The laws the codec obeys, stated once and proved for every value: what a
//! decoder yields on the bytes an encoder produced (the round-trip law, for
//! each wire type), and that the variable-length integer decoder accepts
//! exactly the canonical encodings.

use vstd::prelude::*;
use vstd::utf8::encode_utf8;

use crate::consensus::collections::bytes_dec;
use crate::consensus::collections::bytes_dec_fn;
use crate::consensus::collections::bytes_enc;
use crate::consensus::collections::bytes_enc_fn;
use crate::consensus::collections::seq_dec;
use crate::consensus::collections::seq_enc;
use crate::consensus::collections::u16_dec_fn;
use crate::consensus::collections::u16_enc_fn;
use crate::consensus::collections::u64_dec_fn;
use crate::consensus::collections::u64_enc_fn;
use crate::consensus::encode::varint_bytes;
use crate::consensus::encode::varint_decode;
use crate::consensus::encode::Decodable;
use crate::consensus::encode::Encodable;
use crate::consensus::encode::Error;
use crate::consensus::encode::VarInt;
use crate::consensus::encode::MAX_VEC_SIZE;
use crate::util::endian::le_bytes;
use crate::util::endian::le_value;
use crate::util::endian::lemma_le_bytes_len;
use crate::util::endian::lemma_le_bytes_of_le_value;
use crate::util::endian::lemma_le_value_bound;
use crate::util::endian::lemma_le_value_of_le_bytes;
use crate::util::endian::lemma_pow256_values;

verus! {

/// Round trip for variable-length integers: decoding the canonical encoding
/// of any value, with anything after it, yields the value back and consumes
/// exactly the encoding.
pub proof fn lemma_varint_round_trip(v: u64, rest: Seq<u8>)
    ensures
        varint_decode(varint_bytes(v) + rest) == Ok::<(VarInt, int), Error>((
            VarInt(v),
            varint_bytes(v).len() as int,
        )),
{
    lemma_pow256_values();
    let data = varint_bytes(v) + rest;
    if v <= 0xFC {
        assert(data[0] == v as u8);
    } else if v <= 0xFFFF {
        lemma_le_bytes_len(v as nat, 2);
        assert(data[0] == 0xFD);
        assert(data.subrange(1, 3) =~= le_bytes(v as nat, 2));
        lemma_le_value_of_le_bytes(v as nat, 2);
    } else if v <= 0xFFFFFFFF {
        lemma_le_bytes_len(v as nat, 4);
        assert(data[0] == 0xFE);
        assert(data.subrange(1, 5) =~= le_bytes(v as nat, 4));
        lemma_le_value_of_le_bytes(v as nat, 4);
    } else {
        lemma_le_bytes_len(v as nat, 8);
        assert(data[0] == 0xFF);
        assert(data.subrange(1, 9) =~= le_bytes(v as nat, 8));
        lemma_le_value_of_le_bytes(v as nat, 8);
    }
}

/// Canonicality of the variable-length integer format: whenever the decoder
/// accepts, the bytes it consumed are exactly the canonical encoding of the
/// value it returned. Two distinct accepted byte strings can therefore never
/// stand for the same value.
pub proof fn lemma_varint_canonical(data: Seq<u8>)
    ensures
        varint_decode(data) matches Ok(p) ==> data.take(p.1) == varint_bytes(p.0.0),
{
    lemma_pow256_values();
    if data.len() >= 1 {
        if data[0] == 0xFF {
            if data.len() >= 9 {
                let x = le_value(data.subrange(1, 9));
                lemma_le_value_bound(data.subrange(1, 9));
                if x >= 0x100000000 {
                    lemma_le_bytes_of_le_value(data.subrange(1, 9));
                    assert(data.take(9) =~= seq![0xFFu8] + data.subrange(1, 9));
                }
            }
        } else if data[0] == 0xFE {
            if data.len() >= 5 {
                let x = le_value(data.subrange(1, 5));
                lemma_le_value_bound(data.subrange(1, 5));
                if x >= 0x10000 {
                    lemma_le_bytes_of_le_value(data.subrange(1, 5));
                    assert(data.take(5) =~= seq![0xFEu8] + data.subrange(1, 5));
                }
            }
        } else if data[0] == 0xFD {
            if data.len() >= 3 {
                let x = le_value(data.subrange(1, 3));
                lemma_le_value_bound(data.subrange(1, 3));
                if x >= 0xFD {
                    lemma_le_bytes_of_le_value(data.subrange(1, 3));
                    assert(data.take(3) =~= seq![0xFDu8] + data.subrange(1, 3));
                }
            }
        } else {
            assert(data.take(1) =~= seq![data[0]]);
        }
    }
}

/// Round trip for booleans; and decoding any nonzero byte, not only `1`,
/// yields true.
pub proof fn lemma_bool_decode(b: u8, rest: Seq<u8>)
    ensures
        <bool as Decodable>::decode_spec(seq![b] + rest) == Ok::<(bool, int), Error>((b != 0, 1)),
        (b != 0) ==> <bool as Decodable>::decode_spec(seq![b] + rest) == Ok::<(bool, int), Error>((
            true,
            1,
        )),
{
    assert((seq![b] + rest)[0] == b);
}

/// Round trip for 8-bit integers.
pub proof fn lemma_u8_round_trip(v: u8, rest: Seq<u8>)
    ensures
        <u8 as Decodable>::decode_spec(v.encoding() + rest) == Ok::<(u8, int), Error>((v, 1)),
{
    assert((v.encoding() + rest)[0] == v);
}

/// Round trip for 16-bit integers.
pub proof fn lemma_u16_round_trip(v: u16, rest: Seq<u8>)
    ensures
        <u16 as Decodable>::decode_spec(v.encoding() + rest) == Ok::<(u16, int), Error>((v, 2)),
{
    lemma_pow256_values();
    lemma_le_bytes_len(v as nat, 2);
    assert((v.encoding() + rest).take(2) =~= le_bytes(v as nat, 2));
    lemma_le_value_of_le_bytes(v as nat, 2);
}

/// Round trip for 32-bit integers: little-endian out, little-endian back.
pub proof fn lemma_u32_round_trip(v: u32, rest: Seq<u8>)
    ensures
        <u32 as Decodable>::decode_spec(v.encoding() + rest) == Ok::<(u32, int), Error>((v, 4)),
{
    lemma_pow256_values();
    lemma_le_bytes_len(v as nat, 4);
    assert((v.encoding() + rest).take(4) =~= le_bytes(v as nat, 4));
    lemma_le_value_of_le_bytes(v as nat, 4);
}

/// Round trip for 64-bit integers.
pub proof fn lemma_u64_round_trip(v: u64, rest: Seq<u8>)
    ensures
        <u64 as Decodable>::decode_spec(v.encoding() + rest) == Ok::<(u64, int), Error>((v, 8)),
{
    lemma_pow256_values();
    lemma_le_bytes_len(v as nat, 8);
    assert((v.encoding() + rest).take(8) =~= le_bytes(v as nat, 8));
    lemma_le_value_of_le_bytes(v as nat, 8);
}

/// Round trip for signed 8-bit integers.
pub proof fn lemma_i8_round_trip(v: i8, rest: Seq<u8>)
    ensures
        <i8 as Decodable>::decode_spec(v.encoding() + rest) == Ok::<(i8, int), Error>((v, 1)),
{
    assert((v.encoding() + rest)[0] == v as u8);
    assert(v as u8 as i8 == v) by (bit_vector);
}

/// Round trip for signed 16-bit integers.
pub proof fn lemma_i16_round_trip(v: i16, rest: Seq<u8>)
    ensures
        <i16 as Decodable>::decode_spec(v.encoding() + rest) == Ok::<(i16, int), Error>((v, 2)),
{
    lemma_pow256_values();
    lemma_le_bytes_len((v as u16) as nat, 2);
    assert((v.encoding() + rest).take(2) =~= le_bytes((v as u16) as nat, 2));
    lemma_le_value_of_le_bytes((v as u16) as nat, 2);
    assert(v as u16 as i16 == v) by (bit_vector);
}

/// Round trip for signed 32-bit integers.
pub proof fn lemma_i32_round_trip(v: i32, rest: Seq<u8>)
    ensures
        <i32 as Decodable>::decode_spec(v.encoding() + rest) == Ok::<(i32, int), Error>((v, 4)),
{
    lemma_pow256_values();
    lemma_le_bytes_len((v as u32) as nat, 4);
    assert((v.encoding() + rest).take(4) =~= le_bytes((v as u32) as nat, 4));
    lemma_le_value_of_le_bytes((v as u32) as nat, 4);
    assert(v as u32 as i32 == v) by (bit_vector);
}

/// Round trip for signed 64-bit integers.
pub proof fn lemma_i64_round_trip(v: i64, rest: Seq<u8>)
    ensures
        <i64 as Decodable>::decode_spec(v.encoding() + rest) == Ok::<(i64, int), Error>((v, 8)),
{
    lemma_pow256_values();
    lemma_le_bytes_len((v as u64) as nat, 8);
    assert((v.encoding() + rest).take(8) =~= le_bytes((v as u64) as nat, 8));
    lemma_le_value_of_le_bytes((v as u64) as nat, 8);
    assert(v as u64 as i64 == v) by (bit_vector);
}

/// Round trip for booleans: false and true come back as themselves.
pub proof fn lemma_bool_round_trip(v: bool, rest: Seq<u8>)
    ensures
        <bool as Decodable>::decode_spec(v.encoding() + rest) == Ok::<(bool, int), Error>((v, 1)),
{
    lemma_bool_decode(
        if v {
            1u8
        } else {
            0u8
        },
        rest,
    );
    assert(v.encoding() =~= seq![
        if v {
            1u8
        } else {
            0u8
        },
    ]);
}

/// Round trip for raw byte sequences: decoding the length-prefixed encoding
/// of any byte run that fits under the allocation ceiling yields the bytes
/// back and consumes exactly the encoding.
pub proof fn lemma_bytes_round_trip(b: Seq<u8>, rest: Seq<u8>)
    requires
        b.len() <= MAX_VEC_SIZE,
    ensures
        bytes_dec(bytes_enc(b) + rest) == Ok::<(Seq<u8>, int), Error>((
            b,
            bytes_enc(b).len() as int,
        )),
{
    let data = bytes_enc(b) + rest;
    assert(data =~= varint_bytes(b.len() as u64) + (b + rest));
    lemma_varint_round_trip(b.len() as u64, b + rest);
    let k = varint_bytes(b.len() as u64).len() as int;
    assert(data.subrange(k, k + b.len() as int) =~= b);
}

/// Round trip for one homogeneous sequence, generically: if every element
/// round-trips through its element codec, the concatenated encoding of the
/// whole sequence decodes back to the element views in order.
pub proof fn lemma_seq_round_trip<A, B>(
    s: Seq<A>,
    rest: Seq<u8>,
    f: spec_fn(A) -> Seq<u8>,
    g: spec_fn(Seq<u8>) -> Result<(B, int), Error>,
    h: spec_fn(A) -> B,
)
    requires
        forall|i: int, r: Seq<u8>|
            0 <= i < s.len() ==> #[trigger] g(f(s[i]) + r) == Ok::<(B, int), Error>((
                h(s[i]),
                f(s[i]).len() as int,
            )),
    ensures
        seq_dec(seq_enc(s, f) + rest, s.len(), g) == Ok::<(Seq<B>, int), Error>((
            s.map_values(h),
            seq_enc(s, f).len() as int,
        )),
    decreases s.len(),
{
    if s.len() == 0 {
        assert(s.map_values(h) =~= Seq::<B>::empty());
    } else {
        let head = f(s[0]);
        let tail = seq_enc(s.skip(1), f) + rest;
        assert(seq_enc(s, f) + rest =~= head + tail);
        assert(g(head + tail) == Ok::<(B, int), Error>((h(s[0]), head.len() as int)));
        assert((head + tail).skip(head.len() as int) =~= tail);
        assert forall|i: int, r: Seq<u8>|
            0 <= i < s.skip(1).len() implies #[trigger] g(f(s.skip(1)[i]) + r) == Ok::<
            (B, int),
            Error,
        >((h(s.skip(1)[i]), f(s.skip(1)[i]).len() as int)) by {
            assert(s.skip(1)[i] == s[i + 1]);
        }
        lemma_seq_round_trip(s.skip(1), rest, f, g, h);
        assert(s.map_values(h) =~= seq![h(s[0])] + s.skip(1).map_values(h));
    }
}

/// Round trip for sequences of 64-bit integers under the allocation ceiling.
pub proof fn lemma_vec_u64_round_trip(v: Vec<u64>, rest: Seq<u8>)
    requires
        v@.len() * 8 <= MAX_VEC_SIZE,
    ensures
        <Vec<u64> as Decodable>::decode_spec(v.encoding() + rest) == Ok::<(Seq<u64>, int), Error>((
            v@,
            v.encoding().len() as int,
        )),
{
    lemma_pow256_values();
    let s = v@;
    let body = seq_enc(s, u64_enc_fn());
    let data = v.encoding() + rest;
    assert(data =~= varint_bytes(s.len() as u64) + (body + rest));
    lemma_varint_round_trip(s.len() as u64, body + rest);
    assert forall|i: int, r: Seq<u8>|
        0 <= i < s.len() implies #[trigger] u64_dec_fn()(u64_enc_fn()(s[i]) + r) == Ok::<
        (u64, int),
        Error,
    >((s[i], u64_enc_fn()(s[i]).len() as int)) by {
        lemma_le_bytes_len(s[i] as nat, 8);
        assert((le_bytes(s[i] as nat, 8) + r).take(8) =~= le_bytes(s[i] as nat, 8));
        lemma_le_value_of_le_bytes(s[i] as nat, 8);
    }
    lemma_seq_round_trip(s, rest, u64_enc_fn(), u64_dec_fn(), |x: u64| x);
    let k = varint_bytes(s.len() as u64).len() as int;
    assert(data.skip(k) =~= body + rest);
    assert(s.map_values(|x: u64| x) =~= s);
}

/// Round trip for sequences of byte runs: every element and the declared
/// allocation must fit under the ceiling.
pub proof fn lemma_vec_bytes_round_trip(v: Vec<Vec<u8>>, rest: Seq<u8>)
    requires
        v@.len() * vstd::layout::size_of::<Vec<u8>>() <= MAX_VEC_SIZE,
        forall|i: int| 0 <= i < v@.len() ==> (#[trigger] v@[i])@.len() <= MAX_VEC_SIZE,
    ensures
        <Vec<Vec<u8>> as Decodable>::decode_spec(v.encoding() + rest) == Ok::<
            (Seq<Seq<u8>>, int),
            Error,
        >((v.deep_view(), v.encoding().len() as int)),
{
    lemma_pow256_values();
    vstd::std_specs::vec::axiom_spec_len(&v);
    let s = v.deep_view();
    assert(s.len() == v@.len());
    let body = seq_enc(s, bytes_enc_fn());
    let data = v.encoding() + rest;
    assert(data =~= varint_bytes(s.len() as u64) + (body + rest));
    lemma_varint_round_trip(s.len() as u64, body + rest);
    assert forall|i: int, r: Seq<u8>|
        0 <= i < s.len() implies #[trigger] bytes_dec_fn()(bytes_enc_fn()(s[i]) + r) == Ok::<
        (Seq<u8>, int),
        Error,
    >((s[i], bytes_enc_fn()(s[i]).len() as int)) by {
        assert(s[i] == v@[i]@);
        lemma_bytes_round_trip(s[i], r);
    }
    lemma_seq_round_trip(s, rest, bytes_enc_fn(), bytes_dec_fn(), |x: Seq<u8>| x);
    let k = varint_bytes(s.len() as u64).len() as int;
    assert(data.skip(k) =~= body + rest);
    assert(s.map_values(|x: Seq<u8>| x) =~= s);
}

/// Round trip for strings whose UTF-8 form fits under the allocation
/// ceiling: the characters come back exactly, and invalid UTF-8 can never
/// be produced by the encoder.
pub proof fn lemma_string_round_trip(v: String, rest: Seq<u8>)
    requires
        encode_utf8(v@).len() <= MAX_VEC_SIZE,
    ensures
        <String as Decodable>::decode_spec(v.encoding() + rest) == Ok::<(Seq<char>, int), Error>((
            v@,
            v.encoding().len() as int,
        )),
{
    broadcast use vstd::utf8::encode_utf8_valid_utf8;
    broadcast use vstd::utf8::encode_utf8_decode_utf8;

    lemma_bytes_round_trip(encode_utf8(v@), rest);
}

/// Round trip for fixed-size byte arrays: no prefix, exactly the array's
/// bytes.
pub proof fn lemma_array_round_trip<const N: usize>(v: [u8; N], rest: Seq<u8>)
    ensures
        <[u8; N] as Decodable>::decode_spec(v.encoding() + rest) == Ok::<(Seq<u8>, int), Error>((
            v@,
            N as int,
        )),
{
    assert(v@.len() == N);
    assert((v@ + rest).take(N as int) =~= v@);
}

/// Round trip for the eight-element 16-bit integer array.
pub proof fn lemma_u16_array_round_trip(v: [u16; 8], rest: Seq<u8>)
    ensures
        <[u16; 8] as Decodable>::decode_spec(v.encoding() + rest) == Ok::<(Seq<u16>, int), Error>((
            v@,
            v.encoding().len() as int,
        )),
{
    lemma_pow256_values();
    assert forall|i: int, r: Seq<u8>|
        0 <= i < v@.len() implies #[trigger] u16_dec_fn()(u16_enc_fn()(v@[i]) + r) == Ok::<
        (u16, int),
        Error,
    >((v@[i], u16_enc_fn()(v@[i]).len() as int)) by {
        lemma_le_bytes_len(v@[i] as nat, 2);
        assert((le_bytes(v@[i] as nat, 2) + r).take(2) =~= le_bytes(v@[i] as nat, 2));
        lemma_le_value_of_le_bytes(v@[i] as nat, 2);
    }
    lemma_seq_round_trip(v@, rest, u16_enc_fn(), u16_dec_fn(), |x: u16| x);
    assert(v@.len() == 8);
    assert(v@.map_values(|x: u16| x) =~= v@);
}

/// Round trip for service flags: the 64-bit bitmask comes back exactly.
pub proof fn lemma_serviceflags_round_trip(v: crate::network::constants::ServiceFlags, rest: Seq<u8>)
    ensures
        crate::network::constants::serviceflags_dec(v.encoding() + rest) == Ok::<
            (crate::network::constants::ServiceFlags, int),
            Error,
        >((v, 8)),
{
    lemma_pow256_values();
    lemma_le_bytes_len(v.0 as nat, 8);
    assert((v.encoding() + rest).take(8) =~= le_bytes(v.0 as nat, 8));
    lemma_le_value_of_le_bytes(v.0 as nat, 8);
}

} // verus!
