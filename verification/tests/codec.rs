//! Tests for the consensus codec: primitives, variable-length integers,
//! collections, strings, and the entry points.

use bitcoin::consensus::encode::deserialize;
use bitcoin::consensus::encode::deserialize_partial;
use bitcoin::consensus::encode::serialize;
use bitcoin::consensus::encode::Encodable;
use bitcoin::consensus::encode::Error;
use bitcoin::consensus::encode::VarInt;

#[test]
fn serialize_int_test() {
    assert_eq!(serialize(&false), vec![0u8]);
    assert_eq!(serialize(&true), vec![1u8]);
}

#[test]
fn endianness_u32_test() {
    assert_eq!(serialize(&0xDEADBEEFu32), vec![0xEFu8, 0xBE, 0xAD, 0xDE]);
}

#[test]
fn int_round_trips() {
    assert_eq!(deserialize::<u8>(&serialize(&0x7Au8)).unwrap(), 0x7A);
    assert_eq!(deserialize::<u16>(&serialize(&0xBEEFu16)).unwrap(), 0xBEEF);
    assert_eq!(deserialize::<u32>(&serialize(&0xDEADBEEFu32)).unwrap(), 0xDEADBEEF);
    assert_eq!(
        deserialize::<u64>(&serialize(&0x1BADCAFEDEADBEEFu64)).unwrap(),
        0x1BADCAFEDEADBEEF
    );
    assert_eq!(deserialize::<i8>(&serialize(&-99i8)).unwrap(), -99);
    assert_eq!(deserialize::<i16>(&serialize(&-12345i16)).unwrap(), -12345);
    assert_eq!(deserialize::<i32>(&serialize(&-1234567i32)).unwrap(), -1234567);
    assert_eq!(deserialize::<i64>(&serialize(&-123456789012i64)).unwrap(), -123456789012);
    assert_eq!(deserialize::<bool>(&serialize(&true)).unwrap(), true);
    assert_eq!(deserialize::<bool>(&serialize(&false)).unwrap(), false);
}

#[test]
fn varint_encodings() {
    assert_eq!(serialize(&VarInt(0x10)), vec![0x10u8]);
    assert_eq!(serialize(&VarInt(0xFC)), vec![0xFCu8]);
    assert_eq!(serialize(&VarInt(0xFD)), vec![0xFDu8, 0xFD, 0x00]);
    assert_eq!(serialize(&VarInt(0xFFF)), vec![0xFDu8, 0xFF, 0x0F]);
    assert_eq!(serialize(&VarInt(0xF0F0F0F)), vec![0xFEu8, 0x0F, 0x0F, 0x0F, 0x0F]);
    // a value just past the 4-byte class must use the 8-byte class
    assert_eq!(
        serialize(&VarInt(0x100000000)),
        vec![0xFFu8, 0x00, 0x00, 0x00, 0x00, 0x01, 0x00, 0x00, 0x00]
    );
    assert_eq!(VarInt(0xFC).len(), 1);
    assert_eq!(VarInt(0xFD).len(), 3);
    assert_eq!(VarInt(0x10000).len(), 5);
    assert_eq!(VarInt(0x100000000).len(), 9);
}

#[test]
fn varint_round_trips() {
    for v in [0u64, 0xFC, 0xFD, 0xFFFF, 0x10000, 0xFFFFFFFF, 0x100000000, u64::MAX] {
        let got: VarInt = deserialize(&serialize(&VarInt(v))).unwrap();
        assert_eq!(got, VarInt(v));
    }
}

#[test]
fn varint_non_minimal_rejected() {
    // 0xFFFF fits the 3-byte class, so a 5-byte form is non-minimal
    let r: Result<VarInt, Error> = deserialize(&[0xFEu8, 0xFF, 0xFF, 0x00, 0x00]);
    assert!(matches!(r, Err(Error::NonMinimalVarInt)));
    // 0xFC fits a single byte, so a 3-byte form is non-minimal
    let r: Result<VarInt, Error> = deserialize(&[0xFDu8, 0xFC, 0x00]);
    assert!(matches!(r, Err(Error::NonMinimalVarInt)));
    // the boundary values themselves are accepted
    let r: Result<VarInt, Error> = deserialize(&[0xFDu8, 0xFD, 0x00]);
    assert_eq!(r.unwrap(), VarInt(0xFD));
}

#[test]
fn bool_decode_nonzero_is_true() {
    assert_eq!(deserialize::<bool>(&[0x00]).unwrap(), false);
    assert_eq!(deserialize::<bool>(&[0x01]).unwrap(), true);
    assert_eq!(deserialize::<bool>(&[0x05]).unwrap(), true);
    assert_eq!(deserialize::<bool>(&[0xFF]).unwrap(), true);
}

#[test]
fn exact_consumption() {
    // one valid bool followed by one trailing byte: strict decode fails,
    // partial decode reports one byte consumed
    let data = [0x01u8, 0x02];
    let strict: Result<bool, Error> = deserialize(&data);
    assert!(matches!(strict, Err(Error::ParseFailed(_))));
    let (v, consumed): (bool, usize) = deserialize_partial(&data).unwrap();
    assert_eq!(v, true);
    assert_eq!(consumed, 1);
}

#[test]
fn short_input_is_io_error() {
    let r: Result<u32, Error> = deserialize(&[0x01u8, 0x02]);
    assert!(matches!(r, Err(Error::Io(_))));
    let r: Result<VarInt, Error> = deserialize(&[0xFEu8, 0x01]);
    assert!(matches!(r, Err(Error::Io(_))));
}

#[test]
fn bytes_round_trip() {
    let v: Vec<u8> = vec![1, 2, 3, 4, 5];
    let enc = serialize(&v);
    assert_eq!(enc, vec![5u8, 1, 2, 3, 4, 5]);
    assert_eq!(deserialize::<Vec<u8>>(&enc).unwrap(), v);
    let empty: Vec<u8> = vec![];
    assert_eq!(serialize(&empty), vec![0u8]);
    assert_eq!(deserialize::<Vec<u8>>(&[0u8]).unwrap(), empty);
}

#[test]
fn oversized_bytes_rejected() {
    // a declared count of 4,000,001 bytes exceeds the ceiling
    let r: Result<Vec<u8>, Error> = deserialize(&[0xFEu8, 0x01, 0x09, 0x3D, 0x00]);
    match r {
        Err(Error::OversizedVectorAllocation { requested, max }) => {
            assert_eq!(requested, 4_000_001);
            assert_eq!(max, 4_000_000);
        }
        other => panic!("expected an oversized-allocation error, got {:?}", other),
    }
}

#[test]
fn oversized_element_count_rejected() {
    // 500,001 eight-byte elements would need 4,000,008 bytes
    let r: Result<Vec<u64>, Error> = deserialize(&[0xFEu8, 0x21, 0xA1, 0x07, 0x00]);
    match r {
        Err(Error::OversizedVectorAllocation { requested, max }) => {
            assert_eq!(requested, 4_000_008);
            assert_eq!(max, 4_000_000);
        }
        other => panic!("expected an oversized-allocation error, got {:?}", other),
    }
}

#[test]
fn vec_u64_round_trip() {
    let v: Vec<u64> = vec![0, 1, 0xDEADBEEF, u64::MAX];
    assert_eq!(deserialize::<Vec<u64>>(&serialize(&v)).unwrap(), v);
}

#[test]
fn vec_of_byte_vecs_round_trip() {
    let v: Vec<Vec<u8>> = vec![vec![1, 2], vec![], vec![3, 4, 5]];
    let enc = serialize(&v);
    assert_eq!(enc, vec![3u8, 2, 1, 2, 0, 3, 3, 4, 5]);
    assert_eq!(deserialize::<Vec<Vec<u8>>>(&enc).unwrap(), v);
}

#[test]
fn array_round_trips() {
    let a: [u8; 4] = [0xDE, 0xAD, 0xBE, 0xEF];
    let enc = serialize(&a);
    assert_eq!(enc, vec![0xDEu8, 0xAD, 0xBE, 0xEF]);
    assert_eq!(deserialize::<[u8; 4]>(&enc).unwrap(), a);
    let w: [u8; 12] = [1, 2, 3, 4, 5, 6, 7, 8, 9, 10, 11, 12];
    assert_eq!(deserialize::<[u8; 12]>(&serialize(&w)).unwrap(), w);
    let h: [u16; 8] = [1, 2, 3, 0xBEEF, 5, 6, 7, 8];
    let enc = serialize(&h);
    assert_eq!(enc.len(), 16);
    assert_eq!(&enc[6..8], &[0xEFu8, 0xBE]);
    assert_eq!(deserialize::<[u16; 8]>(&serialize(&h)).unwrap(), h);
}

#[test]
fn string_round_trip() {
    let s = String::from("/Satoshi:0.18.0/");
    let enc = serialize(&s);
    assert_eq!(enc[0] as usize, s.len());
    assert_eq!(deserialize::<String>(&enc).unwrap(), s);
    // multi-byte characters survive the trip through UTF-8
    let t = String::from("na\u{ef}ve \u{2603}");
    assert_eq!(deserialize::<String>(&serialize(&t)).unwrap(), t);
}

#[test]
fn invalid_utf8_rejected() {
    // a one-byte string whose byte is not valid UTF-8
    let r: Result<String, Error> = deserialize(&[0x01u8, 0xFF]);
    assert!(matches!(r, Err(Error::ParseFailed(_))));
}

#[test]
fn encode_reports_written_length() {
    let v: Vec<u8> = vec![9; 300];
    let mut sink: Vec<u8> = Vec::new();
    let n = v.consensus_encode(&mut sink).unwrap();
    assert_eq!(n, 3 + 300);
    assert_eq!(sink.len(), n);
    let got: Vec<u8> = deserialize(&sink).unwrap();
    assert_eq!(got, v);
}

#[test]
fn error_messages() {
    assert_eq!(Error::NonMinimalVarInt.message(), "non-minimal varint");
    assert_eq!(Error::UnknownNetworkMagic(7).message(), "unknown network magic: 7");
    assert_eq!(
        Error::OversizedVectorAllocation { requested: 4_000_001, max: 4_000_000 }.message(),
        "allocation of oversized vector: requested 4000001, max 4000000"
    );
    assert_eq!(
        Error::InvalidChecksum { expected: [0xde, 0xad, 0xbe, 0xef], actual: [0, 1, 2, 3] }
            .message(),
        "invalid checksum: expected deadbeef, actual 00010203"
    );
    assert_eq!(Error::ParseFailed("trailing bytes").message(), "parse failed: trailing bytes");
    assert_eq!(Error::UnsupportedSegwitFlag(2).message(), "unsupported segwit version: 2");
    assert_eq!(
        Error::UnrecognizedNetworkCommand(String::from("thirteenchars")).message(),
        "unrecognized network command: thirteenchars"
    );
    assert_eq!(Error::UnknownInventoryType(9).message(), "unknown inventory type: 9");
}
