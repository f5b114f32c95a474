//! Tests for the network layer: constants, service flags, command strings,
//! and the version message.

use bitcoin::consensus::encode::deserialize;
use bitcoin::consensus::encode::serialize;
use bitcoin::consensus::encode::Encodable;
use bitcoin::consensus::encode::Error;
use bitcoin::network::address::Address;
use bitcoin::network::constants::Network;
use bitcoin::network::constants::ServiceFlags;
use bitcoin::network::constants::PROTOCOL_VERSION;
use bitcoin::network::message::CommandString;
use bitcoin::network::message_network::RejectReason;
use bitcoin::network::message_network::VersionMessage;

#[test]
fn serialize_test() {
    assert_eq!(serialize(&Network::Bitcoin.magic()), &[0xf9, 0xbe, 0xb4, 0xd9]);
    assert_eq!(serialize(&Network::Testnet.magic()), &[0x0b, 0x11, 0x09, 0x07]);
    assert_eq!(serialize(&Network::Regtest.magic()), &[0xfa, 0xbf, 0xb5, 0xda]);
    assert_eq!(deserialize(&[0xf9, 0xbe, 0xb4, 0xd9]).ok(), Some(Network::Bitcoin.magic()));
    assert_eq!(deserialize(&[0x0b, 0x11, 0x09, 0x07]).ok(), Some(Network::Testnet.magic()));
    assert_eq!(deserialize(&[0xfa, 0xbf, 0xb5, 0xda]).ok(), Some(Network::Regtest.magic()));
}

#[test]
fn string_test() {
    assert_eq!(Network::Bitcoin.to_string(), "bitcoin");
    assert_eq!(Network::Testnet.to_string(), "testnet");
    assert_eq!(Network::Regtest.to_string(), "regtest");

    assert_eq!("bitcoin".parse::<Network>().unwrap(), Network::Bitcoin);
    assert_eq!("testnet".parse::<Network>().unwrap(), Network::Testnet);
    assert_eq!("regtest".parse::<Network>().unwrap(), Network::Regtest);
    assert!("fakenet".parse::<Network>().is_err());
}

#[test]
fn magic_test() {
    assert_eq!(Network::from_magic(0xD9B4BEF9), Some(Network::Bitcoin));
    assert_eq!(Network::from_magic(0x0709110B), Some(Network::Testnet));
    assert_eq!(Network::from_magic(0xDAB5BFFA), Some(Network::Regtest));
    assert_eq!(Network::from_magic(0xFFFFFFFF), None);
    assert_eq!(Network::from_magic(Network::Bitcoin.magic()), Some(Network::Bitcoin));
}

#[test]
fn service_flags_test() {
    let all = [
        ServiceFlags::network(),
        ServiceFlags::getutxo(),
        ServiceFlags::bloom(),
        ServiceFlags::witness(),
        ServiceFlags::compact_filters(),
        ServiceFlags::network_limited(),
    ];

    let flags = ServiceFlags::none();
    for f in all.iter() {
        assert!(!flags.has(*f));
    }

    let flags = flags | ServiceFlags::witness();
    assert_eq!(flags, ServiceFlags::witness());

    let mut flags2 = flags | ServiceFlags::getutxo();
    for f in all.iter() {
        assert_eq!(flags2.has(*f), *f == ServiceFlags::witness() || *f == ServiceFlags::getutxo());
    }

    flags2 = flags2 ^ ServiceFlags::witness();
    assert_eq!(flags2, ServiceFlags::getutxo());

    flags2 = flags2 | ServiceFlags::compact_filters();
    flags2 = flags2 ^ ServiceFlags::getutxo();
    assert_eq!(flags2, ServiceFlags::compact_filters());

    // formatting
    assert_eq!("ServiceFlags(NONE)", ServiceFlags::none().to_string());
    assert_eq!("ServiceFlags(WITNESS)", ServiceFlags::witness().to_string());
    let flag = ServiceFlags::witness() | ServiceFlags::bloom() | ServiceFlags::network();
    assert_eq!("ServiceFlags(NETWORK|BLOOM|WITNESS)", flag.to_string());
    let flag = ServiceFlags::witness() | 0xf0u64.into();
    assert_eq!("ServiceFlags(WITNESS|COMPACT_FILTERS|0xb0)", flag.to_string());
}

#[test]
fn service_flags_mutators() {
    let mut flags = ServiceFlags::none();
    assert_eq!(flags.add(ServiceFlags::network()), ServiceFlags::network());
    assert_eq!(flags.as_u64(), 1);
    flags.add(ServiceFlags::witness());
    assert!(flags.has(ServiceFlags::network()));
    assert!(flags.has(ServiceFlags::witness()));
    assert_eq!(flags.remove(ServiceFlags::network()), ServiceFlags::witness());
    assert_eq!(deserialize::<ServiceFlags>(&serialize(&flags)).unwrap(), flags);
}

#[test]
fn command_string_round_trip() {
    let c = CommandString(String::from("tx"));
    let enc = serialize(&c);
    assert_eq!(enc, vec![b't', b'x', 0, 0, 0, 0, 0, 0, 0, 0, 0, 0]);
    assert_eq!(deserialize::<CommandString>(&enc).unwrap(), c);

    let v = CommandString(String::from("version"));
    assert_eq!(deserialize::<CommandString>(&serialize(&v)).unwrap(), v);
}

#[test]
fn command_string_too_long_fails() {
    let c = CommandString(String::from("thirteenchars"));
    let mut sink: Vec<u8> = Vec::new();
    let r = c.consensus_encode(&mut sink);
    assert!(matches!(r, Err(Error::UnrecognizedNetworkCommand(_))));
    assert!(sink.is_empty());
}

#[test]
fn reject_reason_round_trip() {
    let all = [
        RejectReason::Malformed,
        RejectReason::Invalid,
        RejectReason::Obsolete,
        RejectReason::Duplicate,
        RejectReason::NonStandard,
        RejectReason::Dust,
        RejectReason::Fee,
        RejectReason::Checkpoint,
    ];
    for r in all.iter() {
        assert_eq!(deserialize::<RejectReason>(&serialize(r)).unwrap(), *r);
    }
    assert_eq!(serialize(&RejectReason::Dust), vec![0x41u8]);
    let unknown: Result<RejectReason, Error> = deserialize(&[0x77u8]);
    assert!(matches!(unknown, Err(Error::ParseFailed(_))));
}

#[test]
fn address_round_trip() {
    let a = Address { services: ServiceFlags::network(), address: [0, 0, 0, 0, 0, 0xFFFF, 0xC0A8, 0x0001], port: 8333 };
    let enc = serialize(&a);
    assert_eq!(enc.len(), 26);
    assert_eq!(deserialize::<Address>(&enc).unwrap(), a);
}

#[test]
fn version_message_round_trip() {
    let receiver = Address { services: ServiceFlags::network(), address: [0u16; 8], port: 8333 };
    let sender = Address { services: ServiceFlags::none(), address: [0u16; 8], port: 18333 };
    let vm = VersionMessage::new(
        ServiceFlags::network() | ServiceFlags::witness(),
        1_401_217_254,
        receiver,
        sender,
        0xBEEFCAFE,
        String::from("/test:0.1/"),
        500_000,
    );
    assert_eq!(vm.version, PROTOCOL_VERSION);
    assert_eq!(vm.relay, false);

    // the composite encodes as the concatenation of its fields' own
    // encodings, in declared field order
    let enc = serialize(&vm);
    let mut fields: Vec<u8> = Vec::new();
    fields.extend_from_slice(&serialize(&vm.version));
    fields.extend_from_slice(&serialize(&vm.services));
    fields.extend_from_slice(&serialize(&vm.timestamp));
    fields.extend_from_slice(&serialize(&vm.receiver));
    fields.extend_from_slice(&serialize(&vm.sender));
    fields.extend_from_slice(&serialize(&vm.nonce));
    fields.extend_from_slice(&serialize(&vm.user_agent));
    fields.extend_from_slice(&serialize(&vm.start_height));
    fields.extend_from_slice(&serialize(&vm.relay));
    assert_eq!(enc, fields);

    assert_eq!(deserialize::<VersionMessage>(&enc).unwrap(), vm);
}
