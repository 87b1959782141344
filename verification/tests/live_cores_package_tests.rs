use exit_relay::cryptde::{encodex, CryptDE, CryptData, PlainData, PublicKey};
use exit_relay::cryptde_null::CryptDENull;
use exit_relay::dispatcher::Component;
use exit_relay::hop::LiveHop;
use exit_relay::hopper::{IncipientCoresPackage, MessageType};
use exit_relay::live_cores_package::LiveCoresPackage;
use exit_relay::net::IpAddress;
use exit_relay::route::{Route, RouteError, RouteSegment};
use exit_relay::stream::{DnsResolveFailure, StreamKey};
use exit_relay::wallet::Wallet;
use exit_relay::wire::{from_bytes, to_bytes};

fn cryptde() -> CryptDENull {
    CryptDENull::from(&PublicKey::new(&[1, 2]))
}

fn make_meaningless_stream_key() -> StreamKey {
    StreamKey::new(&[7; 20])
}

fn make_meaningless_route() -> Route {
    Route::one_way(
        RouteSegment::new(
            vec![&PublicKey::new(b"ooga"), &PublicKey::new(b"booga")],
            Component::ProxyClient,
        ),
        &CryptDENull::from(&PublicKey::new(b"ooga")),
        Some(Wallet::new("wallet")),
    )
    .unwrap()
}

#[test]
fn live_cores_package_can_be_constructed_from_scratch() {
    let payload = CryptData::new(&[5, 6]);
    let cryptde = cryptde();
    let consuming_wallet = Wallet::new("wallet");
    let route = Route::one_way(
        RouteSegment::new(
            vec![&PublicKey::new(&[1, 2]), &PublicKey::new(&[3, 4])],
            Component::Neighborhood,
        ),
        &cryptde,
        Some(consuming_wallet),
    )
    .unwrap();

    let subject = LiveCoresPackage::new(route.clone(), payload.clone());

    assert_eq!(subject.route, route);
    assert_eq!(subject.payload, payload);
}

#[test]
fn live_cores_package_can_be_produced_from_older_live_cores_package() {
    let payload = MessageType::DnsResolveFailed(DnsResolveFailure {
        stream_key: make_meaningless_stream_key(),
    });
    let destination_key = PublicKey::new(&[3, 4]);
    let destination_cryptde = CryptDENull::from(&destination_key);
    let relay_key = PublicKey::new(&[1, 2]);
    let relay_cryptde = CryptDENull::from(&relay_key);
    let cryptde = cryptde();
    let serialized_payload = to_bytes(&payload);
    let encrypted_payload = cryptde
        .encode(&destination_key, &PlainData::new(&serialized_payload))
        .unwrap();
    let consuming_wallet = Wallet::new("wallet");
    let route = Route::one_way(
        RouteSegment::new(vec![&relay_key, &destination_key], Component::Neighborhood),
        &cryptde,
        Some(consuming_wallet),
    )
    .unwrap();
    let subject = LiveCoresPackage::new(route.clone(), encrypted_payload.clone());

    let (next_hop, next_pkg) = subject.to_next_live(&relay_cryptde).unwrap();

    assert_eq!(
        next_hop,
        LiveHop::new(
            &destination_key,
            Some(Wallet::new("wallet")),
            Component::Hopper,
        )
    );
    assert_eq!(next_pkg.payload, encrypted_payload);
    let mut route = next_pkg.route.clone();
    assert_eq!(
        route.shift(&destination_cryptde).unwrap(),
        LiveHop::new(
            &PublicKey::new(&[]),
            Some(Wallet::new("wallet")),
            Component::Neighborhood,
        )
    );
    assert_eq!(
        &route.hops[0].as_slice()[..8],
        &[52, 52, 52, 52, 52, 52, 52, 52]
    ); // garbage
}

#[test]
fn to_next_live_complains_about_bad_input() {
    let subject = LiveCoresPackage::new(Route { hops: vec![] }, CryptData::new(&[]));

    let result = subject.to_next_live(&cryptde());

    assert_eq!(result, Err(RouteError::EmptyRoute));
}

#[test]
fn live_cores_package_can_be_constructed_from_incipient_cores_package() {
    let cryptde = cryptde();
    let consuming_wallet = Wallet::new("wallet");
    let key12 = cryptde.public_key();
    let key34 = PublicKey::new(&[3, 4]);
    let key56 = PublicKey::new(&[5, 6]);
    let mut route = Route::one_way(
        RouteSegment::new(vec![&key12, &key34, &key56], Component::Neighborhood),
        &cryptde,
        Some(consuming_wallet),
    )
    .unwrap();
    let payload = MessageType::DnsResolveFailed(DnsResolveFailure {
        stream_key: make_meaningless_stream_key(),
    });

    let incipient =
        IncipientCoresPackage::new(&cryptde, route.clone(), payload.clone(), &key56).unwrap();
    let (subject, next_stop) = LiveCoresPackage::from_incipient(incipient, &cryptde).unwrap();

    assert_eq!(next_stop, key34);
    route.shift(&cryptde).unwrap();

    assert_eq!(subject.route, route);
    assert_eq!(
        subject.payload,
        cryptde
            .encode(&key56, &PlainData::new(&to_bytes(&payload)))
            .unwrap()
    );
}

#[test]
fn from_incipient_complains_about_problems_decrypting_next_hop() {
    let cryptde = cryptde();
    let incipient = IncipientCoresPackage::new(
        &cryptde,
        Route { hops: vec![] },
        MessageType::DnsResolveFailed(DnsResolveFailure {
            stream_key: make_meaningless_stream_key(),
        }),
        &PublicKey::new(&[3, 4]),
    )
    .unwrap();
    let result = LiveCoresPackage::from_incipient(incipient, &cryptde);

    assert_eq!(
        result,
        Err(String::from("Could not decrypt next hop: EmptyRoute"))
    );
}

#[test]
fn expired_cores_package_can_be_constructed_from_live_cores_package() {
    let immediate_neighbor_ip = IpAddress::V4(1, 2, 3, 4);
    let payload = MessageType::DnsResolveFailed(DnsResolveFailure {
        stream_key: make_meaningless_stream_key(),
    });
    let first_stop_key = PublicKey::new(&[3, 4]);
    let first_stop_cryptde = CryptDENull::from(&first_stop_key);
    let relay_key = PublicKey::new(&[1, 2]);
    let relay_cryptde = CryptDENull::from(&relay_key);
    let second_stop_key = PublicKey::new(&[5, 6]);
    let second_stop_cryptde = CryptDENull::from(&second_stop_key);
    let cryptde = cryptde();
    let encrypted_payload = encodex(&cryptde, &first_stop_key, &payload).unwrap();
    let consuming_wallet = Wallet::new("wallet");
    let mut route = Route::round_trip(
        RouteSegment::new(vec![&relay_key, &first_stop_key], Component::Neighborhood),
        RouteSegment::new(
            vec![&first_stop_key, &relay_key, &second_stop_key],
            Component::ProxyServer,
        ),
        &cryptde,
        Some(consuming_wallet),
        1234,
    )
    .unwrap();
    route.shift(&relay_cryptde).unwrap();
    let subject = LiveCoresPackage::new(route.clone(), encrypted_payload.clone());

    let result = subject
        .to_expired(immediate_neighbor_ip, &first_stop_cryptde)
        .unwrap();

    assert_eq!(result.immediate_neighbor_ip, immediate_neighbor_ip);
    assert_eq!(result.consuming_wallet, Some(Wallet::new("wallet")));
    assert_eq!(result.payload, payload);
    let mut route = result.remaining_route.clone();
    assert_eq!(
        route.shift(&first_stop_cryptde).unwrap(),
        LiveHop::new(
            &relay_key,
            Some(Wallet::new("wallet")),
            Component::Neighborhood,
        )
    );
    assert_eq!(
        route.shift(&relay_cryptde).unwrap(),
        LiveHop::new(
            &second_stop_key,
            Some(Wallet::new("wallet")),
            Component::Hopper,
        )
    );
    assert_eq!(
        route.shift(&second_stop_cryptde).unwrap(),
        LiveHop::new(
            &PublicKey::new(&[]),
            Some(Wallet::new("wallet")),
            Component::ProxyServer,
        )
    );
    assert_eq!(
        route.hops[0],
        encodex(&cryptde, &cryptde.public_key(), &1234u32).unwrap(),
    );
    route.hops.remove(0);
    assert_eq!(
        &route.hops[0].as_slice()[..8],
        &[52, 52, 52, 52, 52, 52, 52, 52]
    ); // garbage
}

#[test]
fn to_expired_complains_about_bad_route() {
    let subject = LiveCoresPackage::new(
        Route { hops: vec![] },
        CryptData::new(cryptde().private_key().as_slice()),
    );

    let result = subject.to_expired(IpAddress::V4(1, 2, 3, 4), &cryptde());

    assert_eq!(result, Err(format!("{:?}", RouteError::EmptyRoute)));
}

#[test]
fn live_cores_package_serialization_deserialization() {
    let original = LiveCoresPackage {
        route: make_meaningless_route(),
        payload: CryptData::new(&[1, 2, 3, 4]),
    };

    let serialized = to_bytes(&original);

    let deserialized = from_bytes::<LiveCoresPackage>(&serialized[..]).unwrap();

    assert_eq!(deserialized, original);
}
