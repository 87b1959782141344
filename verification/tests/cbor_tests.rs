use exit_relay::cryptde::{CryptData, PublicKey};
use exit_relay::dispatcher::Component;
use exit_relay::hop::LiveHop;
use exit_relay::hopper::MessageType;
use exit_relay::live_cores_package::LiveCoresPackage;
use exit_relay::route::Route;
use exit_relay::stream::{
    ClientRequestPayload, ClientResponsePayload, DnsResolveFailure, ProxyProtocol,
    SequencedPacket, StreamKey,
};
use exit_relay::wallet::Wallet;
use exit_relay::wire::{put_flag, put_optional_text, put_word, to_bytes};
use serde_cbor::Value;

#[test]
fn a_package_reads_as_cbor() {
    let package = LiveCoresPackage::new(
        Route {
            hops: vec![CryptData::new(&[1, 2]), CryptData::new(&[]), CryptData::new(&[3])],
        },
        CryptData::new(&[9, 8, 7]),
    );

    let value: Value = serde_cbor::from_slice(&to_bytes(&package)).unwrap();

    assert_eq!(
        value,
        Value::Array(vec![
            Value::Array(vec![
                Value::Bytes(vec![1, 2]),
                Value::Bytes(vec![]),
                Value::Bytes(vec![3]),
            ]),
            Value::Bytes(vec![9, 8, 7]),
        ])
    );
}

#[test]
fn a_hop_reads_as_cbor() {
    let with_wallet = LiveHop::new(
        &PublicKey::new(&[3, 4]),
        Some(Wallet::new("wallet")),
        Component::ProxyServer,
    );
    let without_wallet = LiveHop::new(&PublicKey::new(&[]), None, Component::Neighborhood);

    let first: Value = serde_cbor::from_slice(&to_bytes(&with_wallet)).unwrap();
    let second: Value = serde_cbor::from_slice(&to_bytes(&without_wallet)).unwrap();

    assert_eq!(
        first,
        Value::Array(vec![
            Value::Bytes(vec![3, 4]),
            Value::Text("wallet".to_string()),
            Value::Integer(2),
        ])
    );
    assert_eq!(
        second,
        Value::Array(vec![Value::Bytes(vec![]), Value::Null, Value::Integer(0)])
    );
}

#[test]
fn the_small_items_read_as_cbor() {
    let mut word = Vec::new();
    put_word(&mut word, 0xDEAD_BEEF);
    let mut yes = Vec::new();
    put_flag(&mut yes, true);
    let mut no = Vec::new();
    put_flag(&mut no, false);
    let mut nothing = Vec::new();
    put_optional_text(&mut nothing, None);

    assert_eq!(
        serde_cbor::from_slice::<Value>(&word).unwrap(),
        Value::Integer(0xDEAD_BEEF)
    );
    assert_eq!(serde_cbor::from_slice::<u32>(&to_bytes(&7u32)).unwrap(), 7);
    assert_eq!(
        serde_cbor::from_slice::<Value>(&yes).unwrap(),
        Value::Bool(true)
    );
    assert_eq!(
        serde_cbor::from_slice::<Value>(&no).unwrap(),
        Value::Bool(false)
    );
    assert_eq!(serde_cbor::from_slice::<Value>(&nothing).unwrap(), Value::Null);
}

#[test]
fn a_request_reads_as_cbor() {
    let message = MessageType::ClientRequest(ClientRequestPayload {
        stream_key: StreamKey::new(&[9, 8, 7]),
        sequenced_packet: SequencedPacket::new(b"GET /".to_vec(), 3, true),
        target_hostname: Some(String::from("target.hostname.com")),
        target_port: 443,
        protocol: ProxyProtocol::TLS,
        originator_public_key: PublicKey::new(b"originator"),
    });

    let value: Value = serde_cbor::from_slice(&to_bytes(&message)).unwrap();

    assert_eq!(
        value,
        Value::Array(vec![
            Value::Integer(0),
            Value::Array(vec![
                Value::Bytes(vec![9, 8, 7]),
                Value::Array(vec![
                    Value::Bytes(b"GET /".to_vec()),
                    Value::Integer(3),
                    Value::Bool(true),
                ]),
                Value::Text("target.hostname.com".to_string()),
                Value::Integer(443),
                Value::Integer(1),
                Value::Bytes(b"originator".to_vec()),
            ]),
        ])
    );
}

#[test]
fn the_other_messages_read_as_cbor() {
    let response = MessageType::ClientResponse(ClientResponsePayload {
        stream_key: StreamKey::new(&[1]),
        sequenced_packet: SequencedPacket::new(vec![], 0, false),
    });
    let failure = MessageType::DnsResolveFailed(DnsResolveFailure {
        stream_key: StreamKey::new(&[2]),
    });
    let gossip = MessageType::Gossip(vec![3]);

    assert_eq!(
        serde_cbor::from_slice::<Value>(&to_bytes(&response)).unwrap(),
        Value::Array(vec![
            Value::Integer(1),
            Value::Array(vec![
                Value::Bytes(vec![1]),
                Value::Array(vec![
                    Value::Bytes(vec![]),
                    Value::Integer(0),
                    Value::Bool(false),
                ]),
            ]),
        ])
    );
    assert_eq!(
        serde_cbor::from_slice::<Value>(&to_bytes(&failure)).unwrap(),
        Value::Array(vec![
            Value::Integer(2),
            Value::Array(vec![Value::Bytes(vec![2])]),
        ])
    );
    assert_eq!(
        serde_cbor::from_slice::<Value>(&to_bytes(&gossip)).unwrap(),
        Value::Array(vec![Value::Integer(3), Value::Bytes(vec![3])])
    );
}
