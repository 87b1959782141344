use exit_relay::cryptde::{CryptDE, CryptData, PublicKey};
use exit_relay::cryptde_null::CryptDENull;
use exit_relay::dispatcher::Component;
use exit_relay::hopper::{ExpiredCoresPackage, IncipientCoresPackage, MessageType};
use exit_relay::net::{IpAddress, SocketAddress};
use exit_relay::proxy_client::{
    DnsFailureOutcome, NameServer, NameServerProtocol, ProxyClient, ProxyClientConfig,
    ReportExitServiceProvidedMessage, RequestOutcome, ResponseOutcome,
};
use exit_relay::route::{Route, RouteSegment};
use exit_relay::stream::{
    ClientRequestPayload, ClientResponsePayload, DnsResolveFailure, InboundServerData,
    ProxyProtocol, SequencedPacket, StreamKey,
};
use exit_relay::stream_contexts::StreamContext;
use exit_relay::wallet::Wallet;

fn cryptde() -> CryptDENull {
    CryptDENull::from(&PublicKey::new(b"local node"))
}

fn dnss() -> Vec<SocketAddress> {
    vec![SocketAddress::new(IpAddress::V4(8, 8, 8, 8), 53)]
}

fn make_meaningless_stream_key() -> StreamKey {
    StreamKey::new(&[7; 20])
}

fn make_meaningless_public_key() -> PublicKey {
    PublicKey::new(b"booga")
}

fn make_meaningless_route() -> Route {
    Route::one_way(
        RouteSegment::new(
            vec![&PublicKey::new(b"ooga"), &PublicKey::new(b"booga")],
            Component::ProxyClient,
        ),
        &CryptDENull::from(&PublicKey::new(b"ooga")),
        Some(Wallet::new("wallet")),
    )
    .unwrap()
}

fn source() -> SocketAddress {
    SocketAddress::new(IpAddress::V4(1, 2, 3, 4), 5678)
}

fn make_subject(exit_service_rate: u64, exit_byte_rate: u64) -> ProxyClient<CryptDENull> {
    ProxyClient::new(ProxyClientConfig {
        cryptde: cryptde(),
        dns_servers: dnss(),
        exit_service_rate,
        exit_byte_rate,
    })
}

#[test]
fn bind_operates_properly() {
    let subject = ProxyClient::new(ProxyClientConfig {
        cryptde: cryptde(),
        dns_servers: vec![
            SocketAddress::new(IpAddress::V4(4, 3, 2, 1), 4321),
            SocketAddress::new(IpAddress::V4(5, 4, 3, 2), 5432),
        ],
        exit_service_rate: 100,
        exit_byte_rate: 200,
    });

    let name_servers = subject.name_servers();

    assert_eq!(
        name_servers,
        vec![
            NameServer {
                socket_addr: SocketAddress::new(IpAddress::V4(4, 3, 2, 1), 4321),
                protocol: NameServerProtocol::Udp,
                tls_dns_name: None,
            },
            NameServer {
                socket_addr: SocketAddress::new(IpAddress::V4(5, 4, 3, 2), 5432),
                protocol: NameServerProtocol::Udp,
                tls_dns_name: None,
            },
        ]
    );
}

#[test]
fn logs_nonexistent_stream_key_during_dns_resolution_failure() {
    let stream_key = make_meaningless_stream_key();
    let subject = ProxyClient::new(ProxyClientConfig {
        cryptde: cryptde(),
        dns_servers: vec![SocketAddress::new(IpAddress::V4(1, 1, 1, 1), 53)],
        exit_service_rate: 0,
        exit_byte_rate: 0,
    });

    let outcome = subject.handle_dns_resolve_failure(DnsResolveFailure {
        stream_key: stream_key.clone(),
    });

    assert_eq!(outcome, DnsFailureOutcome::NonexistentStream { stream_key });
}

#[test]
fn forwards_dns_resolve_failed_to_hopper() {
    let cryptde = cryptde();
    let stream_key = make_meaningless_stream_key();
    let return_route = make_meaningless_route();
    let originator_key = make_meaningless_public_key();
    let mut subject = ProxyClient::new(ProxyClientConfig {
        cryptde: cryptde.clone(),
        dns_servers: vec![SocketAddress::new(IpAddress::V4(1, 1, 1, 1), 53)],
        exit_service_rate: 0,
        exit_byte_rate: 0,
    });
    subject.stream_contexts.insert(
        stream_key.clone(),
        StreamContext {
            return_route: return_route.clone(),
            payload_destination_key: originator_key.clone(),
            consuming_wallet: None,
        },
    );

    let outcome = subject.handle_dns_resolve_failure(DnsResolveFailure {
        stream_key: stream_key.clone(),
    });

    assert_eq!(
        outcome,
        DnsFailureOutcome::Notified {
            package: IncipientCoresPackage::new(
                &cryptde,
                return_route,
                MessageType::DnsResolveFailed(DnsResolveFailure { stream_key: stream_key.clone() }),
                &originator_key
            )
            .unwrap()
        }
    );
    assert!(subject.stream_contexts.get(&stream_key).is_some());
}

#[test]
fn data_from_hopper_is_relayed_to_stream_handler_pool() {
    let request = ClientRequestPayload {
        stream_key: make_meaningless_stream_key(),
        sequenced_packet: SequencedPacket {
            data: b"inbound data".to_vec(),
            sequence_number: 0,
            last_data: false,
        },
        target_hostname: None,
        target_port: 0,
        protocol: ProxyProtocol::HTTP,
        originator_public_key: PublicKey::new(&b"originator"[..]),
    };
    let package = ExpiredCoresPackage::new(
        IpAddress::V4(1, 2, 3, 4),
        Some(Wallet::new("consuming")),
        make_meaningless_route(),
        request.clone(),
        0,
    );
    let mut subject = make_subject(100, 200);

    let outcome = subject.handle_request(package);

    assert_eq!(
        outcome,
        RequestOutcome::Accepted {
            payload: request,
            consuming_wallet: Some(Wallet::new("consuming")),
        }
    );
}

#[test]
fn refuse_to_provide_exit_services_with_no_consuming_wallet() {
    let request = ClientRequestPayload {
        stream_key: make_meaningless_stream_key(),
        sequenced_packet: SequencedPacket {
            data: b"inbound data".to_vec(),
            sequence_number: 0,
            last_data: false,
        },
        target_hostname: None,
        target_port: 0,
        protocol: ProxyProtocol::HTTP,
        originator_public_key: PublicKey::new(&b"originator"[..]),
    };
    let package = ExpiredCoresPackage::new(
        IpAddress::V4(1, 2, 3, 4),
        None,
        make_meaningless_route(),
        request,
        0,
    );
    let mut subject = make_subject(100, 100);
    assert_eq!(subject.accepts_request(&package), false);

    let outcome = subject.handle_request(package);

    assert_eq!(outcome, RequestOutcome::Refused { payload_size: 12 });
    assert_eq!(0, subject.stream_contexts.len());
    assert_eq!(
        format!(
            "Refusing to provide exit services for CORES package with {}-byte payload without consuming wallet",
            match outcome {
                RequestOutcome::Refused { payload_size } => payload_size,
                _ => unreachable!(),
            }
        ),
        "Refusing to provide exit services for CORES package with 12-byte payload without consuming wallet"
    );
}

#[test]
fn does_provide_zero_hop_exit_services_with_no_consuming_wallet() {
    let cryptde = cryptde();
    let request = ClientRequestPayload {
        stream_key: make_meaningless_stream_key(),
        sequenced_packet: SequencedPacket {
            data: b"inbound data".to_vec(),
            sequence_number: 0,
            last_data: false,
        },
        target_hostname: None,
        target_port: 0,
        protocol: ProxyProtocol::HTTP,
        originator_public_key: cryptde.public_key(),
    };
    let package = ExpiredCoresPackage::new(
        IpAddress::V4(1, 2, 3, 4),
        None,
        make_meaningless_route(),
        request.clone(),
        0,
    );
    let mut subject = make_subject(100, 100);
    assert_eq!(subject.accepts_request(&package), true);

    let outcome = subject.handle_request(package);

    assert_eq!(
        outcome,
        RequestOutcome::Accepted {
            payload: request,
            consuming_wallet: None,
        }
    );
}

#[test]
fn inbound_server_data_is_translated_to_cores_packages() {
    let stream_key = make_meaningless_stream_key();
    let data: &[u8] = b"An honest politician is one who, when he is bought, will stay bought.";
    let mut subject = ProxyClient::new(ProxyClientConfig {
        cryptde: cryptde(),
        dns_servers: vec![SocketAddress::new(IpAddress::V4(8, 7, 6, 5), 4321)],
        exit_service_rate: 100,
        exit_byte_rate: 200,
    });
    subject.stream_contexts.insert(
        stream_key.clone(),
        StreamContext {
            return_route: make_meaningless_route(),
            payload_destination_key: PublicKey::new(&b"abcd"[..]),
            consuming_wallet: Some(Wallet::new("consuming")),
        },
    );

    let first = subject.handle_inbound_server_data(InboundServerData {
        stream_key: stream_key.clone(),
        last_data: false,
        sequence_number: 1234,
        source: source(),
        data: Vec::from(data),
    });
    let second = subject.handle_inbound_server_data(InboundServerData {
        stream_key: stream_key.clone(),
        last_data: true,
        sequence_number: 1235,
        source: source(),
        data: Vec::from(data),
    });
    let third = subject.handle_inbound_server_data(InboundServerData {
        stream_key: stream_key.clone(),
        last_data: false,
        sequence_number: 1236,
        source: source(),
        data: Vec::from(data),
    });

    assert_eq!(
        first,
        ResponseOutcome::Relayed {
            package: IncipientCoresPackage::new(
                &cryptde(),
                make_meaningless_route(),
                MessageType::ClientResponse(ClientResponsePayload {
                    stream_key: stream_key.clone(),
                    sequenced_packet: SequencedPacket {
                        data: Vec::from(data),
                        sequence_number: 1234,
                        last_data: false,
                    },
                }),
                &PublicKey::new(&b"abcd"[..]),
            )
            .unwrap(),
            exit_report: Some(ReportExitServiceProvidedMessage {
                consuming_wallet: Wallet::new("consuming"),
                payload_size: data.len(),
                service_rate: 100,
                byte_rate: 200,
            }),
            data_len: data.len(),
        }
    );
    assert_eq!(
        second,
        ResponseOutcome::Relayed {
            package: IncipientCoresPackage::new(
                &cryptde(),
                make_meaningless_route(),
                MessageType::ClientResponse(ClientResponsePayload {
                    stream_key: stream_key.clone(),
                    sequenced_packet: SequencedPacket {
                        data: Vec::from(data),
                        sequence_number: 1235,
                        last_data: true,
                    },
                }),
                &PublicKey::new(&b"abcd"[..]),
            )
            .unwrap(),
            exit_report: Some(ReportExitServiceProvidedMessage {
                consuming_wallet: Wallet::new("consuming"),
                payload_size: data.len(),
                service_rate: 100,
                byte_rate: 200,
            }),
            data_len: data.len(),
        }
    );
    assert_eq!(
        third,
        ResponseOutcome::Unsolicited {
            data_len: data.len(),
            source: source(),
            sequence_number: 1236,
        }
    );
    assert_eq!(subject.stream_contexts.len(), 0);
}

#[test]
fn inbound_server_data_without_consuming_wallet_does_not_report_exit_service() {
    let stream_key = make_meaningless_stream_key();
    let data: &[u8] = b"An honest politician is one who, when he is bought, will stay bought.";
    let mut subject = ProxyClient::new(ProxyClientConfig {
        cryptde: cryptde(),
        dns_servers: vec![SocketAddress::new(IpAddress::V4(8, 7, 6, 5), 4321)],
        exit_service_rate: 100,
        exit_byte_rate: 200,
    });
    subject.stream_contexts.insert(
        stream_key.clone(),
        StreamContext {
            return_route: make_meaningless_route(),
            payload_destination_key: PublicKey::new(&b"abcd"[..]),
            consuming_wallet: None,
        },
    );

    let outcome = subject.handle_inbound_server_data(InboundServerData {
        stream_key: stream_key.clone(),
        last_data: false,
        sequence_number: 1234,
        source: source(),
        data: Vec::from(data),
    });

    match outcome {
        ResponseOutcome::Relayed {
            exit_report,
            data_len,
            ..
        } => {
            assert_eq!(exit_report, None);
            assert_eq!(data_len, data.len());
        }
        other => panic!("the chunk was not relayed: {:?}", other),
    }
}

#[test]
fn error_creating_incipient_cores_package_is_logged_and_dropped() {
    let stream_key = make_meaningless_stream_key();
    let data: &[u8] = b"An honest politician is one who, when he is bought, will stay bought.";
    let mut subject = ProxyClient::new(ProxyClientConfig {
        cryptde: cryptde(),
        dns_servers: vec![SocketAddress::new(IpAddress::V4(8, 7, 6, 5), 4321)],
        exit_service_rate: 100,
        exit_byte_rate: 200,
    });
    subject.stream_contexts.insert(
        stream_key.clone(),
        StreamContext {
            return_route: make_meaningless_route(),
            payload_destination_key: PublicKey::new(&[]),
            consuming_wallet: Some(Wallet::new("consuming")),
        },
    );

    let outcome = subject.handle_inbound_server_data(InboundServerData {
        stream_key: stream_key.clone(),
        last_data: false,
        sequence_number: 1234,
        source: source(),
        data: Vec::from(data),
    });

    assert_eq!(
        outcome,
        ResponseOutcome::PackagingFailed {
            data_len: data.len(),
            source: source(),
            sequence_number: 1234,
            error: "Could not encrypt payload: EmptyKey".to_string(),
        }
    );
    assert!(subject.stream_contexts.get(&stream_key).is_some());
}

#[test]
fn new_return_route_overwrites_existing_return_route() {
    let cryptde = cryptde();
    let stream_key = make_meaningless_stream_key();
    let data: &[u8] = b"An honest politician is one who, when he is bought, will stay bought.";
    let mut subject = ProxyClient::new(ProxyClientConfig {
        cryptde: cryptde.clone(),
        dns_servers: vec![SocketAddress::new(IpAddress::V4(8, 7, 6, 5), 4321)],
        exit_service_rate: 100,
        exit_byte_rate: 200,
    });
    let old_return_route = Route {
        hops: vec![CryptData::new(&[1, 2, 3, 4])],
    };
    let new_return_route = make_meaningless_route();
    let originator_public_key = PublicKey::new(&[4, 3, 2, 1]);
    subject.stream_contexts.insert(
        stream_key.clone(),
        StreamContext {
            return_route: old_return_route,
            payload_destination_key: originator_public_key.clone(),
            consuming_wallet: Some(Wallet::new("consuming")),
        },
    );
    let payload = ClientRequestPayload {
        stream_key: stream_key.clone(),
        sequenced_packet: SequencedPacket {
            data: vec![],
            sequence_number: 0,
            last_data: false,
        },
        target_hostname: None,
        target_port: 0,
        protocol: ProxyProtocol::HTTP,
        originator_public_key: originator_public_key.clone(),
    };

    let request_outcome = subject.handle_request(ExpiredCoresPackage::new(
        IpAddress::V4(2, 3, 4, 5),
        Some(Wallet::new("gnimusnoc")),
        new_return_route.clone(),
        payload.clone(),
        0,
    ));
    let response_outcome = subject.handle_inbound_server_data(InboundServerData {
        stream_key: stream_key.clone(),
        last_data: false,
        sequence_number: 1234,
        source: source(),
        data: Vec::from(data),
    });

    let (actual_payload, consuming_wallet_opt) = match request_outcome {
        RequestOutcome::Accepted {
            payload,
            consuming_wallet,
        } => (payload, consuming_wallet),
        other => panic!("the request was not accepted: {:?}", other),
    };
    assert_eq!(actual_payload, payload);
    assert_eq!(consuming_wallet_opt, Some(Wallet::new("gnimusnoc")));
    let expected_icp = IncipientCoresPackage::new(
        &cryptde,
        new_return_route,
        MessageType::ClientResponse(ClientResponsePayload {
            stream_key,
            sequenced_packet: SequencedPacket {
                data: Vec::from(data),
                sequence_number: 1234,
                last_data: false,
            },
        }),
        &originator_public_key,
    )
    .unwrap();
    let (package, exit_report) = match response_outcome {
        ResponseOutcome::Relayed {
            package,
            exit_report,
            ..
        } => (package, exit_report),
        other => panic!("the chunk was not relayed: {:?}", other),
    };
    assert_eq!(package, expected_icp.clone());
    assert_eq!(
        exit_report,
        Some(ReportExitServiceProvidedMessage {
            consuming_wallet: Wallet::new("gnimusnoc"),
            payload_size: data.len(),
            service_rate: 100,
            byte_rate: 200,
        })
    )
}

#[test]
fn a_request_with_the_last_chunk_does_not_end_the_stream() {
    let mut subject = make_subject(1, 2);
    let stream_key = make_meaningless_stream_key();
    let request = ClientRequestPayload {
        stream_key: stream_key.clone(),
        sequenced_packet: SequencedPacket::new(b"bye".to_vec(), 9, true),
        target_hostname: Some("target.hostname.com".to_string()),
        target_port: 1234,
        protocol: ProxyProtocol::TLS,
        originator_public_key: make_meaningless_public_key(),
    };

    subject.handle_request(ExpiredCoresPackage::new(
        IpAddress::V4(1, 2, 3, 4),
        Some(Wallet::new("consuming")),
        make_meaningless_route(),
        request,
        0,
    ));

    let context = subject.stream_contexts.get(&stream_key).unwrap();
    assert_eq!(context.return_route, make_meaningless_route());
    assert_eq!(context.payload_destination_key, make_meaningless_public_key());
    assert_eq!(context.consuming_wallet, Some(Wallet::new("consuming")));
    assert_eq!(subject.stream_contexts.len(), 1);
}

#[test]
fn streams_are_kept_apart_by_their_keys() {
    let mut subject = make_subject(1, 2);
    let one = StreamKey::new(&[1]);
    let other = StreamKey::new(&[2]);
    let context = |key: &[u8]| StreamContext {
        return_route: make_meaningless_route(),
        payload_destination_key: PublicKey::new(key),
        consuming_wallet: None,
    };
    subject.stream_contexts.insert(one.clone(), context(b"first"));
    subject.stream_contexts.insert(other.clone(), context(b"second"));
    subject.stream_contexts.insert(one.clone(), context(b"third"));

    assert_eq!(subject.stream_contexts.len(), 2);
    assert_eq!(
        subject.stream_contexts.get(&one).unwrap().payload_destination_key,
        PublicKey::new(b"third")
    );
    assert_eq!(
        subject.stream_contexts.get(&other).unwrap().payload_destination_key,
        PublicKey::new(b"second")
    );
    assert_eq!(subject.stream_contexts.remove(&one), true);
    assert_eq!(subject.stream_contexts.remove(&one), false);
    assert!(subject.stream_contexts.get(&one).is_none());
    assert!(subject.stream_contexts.get(&other).is_some());
}
