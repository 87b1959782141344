use exit_relay::cryptde::{decodex, encodex, CryptDE, CryptData, CryptdecError, PlainData, PublicKey};
use exit_relay::cryptde_null::CryptDENull;
use exit_relay::dispatcher::Component;
use exit_relay::hop::{LiveHop, HOP_MARK};
use exit_relay::route::{make_garbage, Route, RouteError, RouteSegment, GARBAGE_BYTE};
use exit_relay::wallet::Wallet;
use exit_relay::wire::{from_bytes, to_bytes};

fn key(bytes: &[u8]) -> PublicKey {
    PublicKey::new(bytes)
}

fn node(bytes: &[u8]) -> CryptDENull {
    CryptDENull::from(&key(bytes))
}

fn three_node_route() -> Route {
    Route::one_way(
        RouteSegment::new(vec![&key(b"A"), &key(b"B"), &key(b"C")], Component::Neighborhood),
        &node(b"A"),
        Some(Wallet::new("w")),
    )
    .unwrap()
}

#[test]
fn a_hop_is_written_byte_for_byte() {
    let hop = LiveHop::new(&key(&[3, 4]), Some(Wallet::new("wallet")), Component::Hopper);

    let bytes = to_bytes(&hop);

    let mut expected = vec![0x83u8];
    expected.extend_from_slice(&[0x5B, 0, 0, 0, 0, 0, 0, 0, 2, 3, 4]);
    expected.extend_from_slice(&[0x7B, 0, 0, 0, 0, 0, 0, 0, 6]);
    expected.extend_from_slice(b"wallet");
    expected.push(1);
    assert_eq!(bytes, expected);
    assert_eq!(bytes[0], HOP_MARK);
    assert_eq!(from_bytes::<LiveHop>(&bytes), Some(hop));
}

#[test]
fn a_hop_without_wallet_is_written_byte_for_byte() {
    let hop = LiveHop::new(&key(&[]), None, Component::ProxyClient);

    let bytes = to_bytes(&hop);

    assert_eq!(bytes, vec![0x83u8, 0x5B, 0, 0, 0, 0, 0, 0, 0, 0, 0xF6, 3]);
    assert_eq!(from_bytes::<LiveHop>(&bytes), Some(hop));
}

#[test]
fn a_hop_is_not_read_from_bytes_with_something_left_over() {
    let hop = LiveHop::new(&key(&[3, 4]), None, Component::Hopper);
    let mut bytes = to_bytes(&hop);
    bytes.push(0);

    assert_eq!(from_bytes::<LiveHop>(&bytes), None);
}

#[test]
fn a_hop_is_not_read_from_a_wallet_that_is_no_text() {
    let mut bytes = vec![0x83u8];
    bytes.extend_from_slice(&[0x5B, 0, 0, 0, 0, 0, 0, 0, 0]);
    bytes.extend_from_slice(&[0x7B, 0, 0, 0, 0, 0, 0, 0, 2, 0xC0, 0xC1]);
    bytes.push(1);

    assert_eq!(from_bytes::<LiveHop>(&bytes), None);
}

#[test]
fn a_hop_is_not_read_from_an_unknown_component() {
    let bytes = vec![0x83u8, 0x5B, 0, 0, 0, 0, 0, 0, 0, 0, 0xF6, 4];
    let mut known = bytes.clone();
    known[11] = 3;
    assert_eq!(
        from_bytes::<LiveHop>(&known),
        Some(LiveHop::new(&key(&[]), None, Component::ProxyClient))
    );

    assert_eq!(from_bytes::<LiveHop>(&bytes), None);
}

#[test]
fn padding_is_no_hop() {
    let padding = make_garbage(40);

    assert_eq!(padding, vec![0x34u8; 40]);
    assert_eq!(GARBAGE_BYTE, b'4');
    assert_eq!(from_bytes::<LiveHop>(&padding), None);
}

#[test]
fn onion_peel() {
    let wallet = || Some(Wallet::new("w"));
    let route = three_node_route();
    assert_eq!(route.hops.len(), 3);
    let first_len = route.hops[0].len();
    let mut at_a = route.clone();
    assert_eq!(
        at_a.shift(&node(b"A")).unwrap(),
        LiveHop::new(&key(b"B"), wallet(), Component::Hopper)
    );

    let mut at_b = at_a.clone();
    let at_b_hop = at_b.shift(&node(b"B")).unwrap();

    assert_eq!(at_b_hop, LiveHop::new(&key(b"C"), wallet(), Component::Hopper));
    assert_eq!(
        at_b.next_hop(&node(b"C")).unwrap(),
        LiveHop::new(&key(&[]), wallet(), Component::Neighborhood)
    );
    assert_eq!(at_b.hops.len(), 3);
    assert_eq!(at_b.hops[1].as_slice(), &vec![0x34u8; first_len][..]);
    assert_eq!(&at_b.hops[2].as_slice()[..8], &[0x34u8; 8]);
    assert_eq!(at_b.hops[2].len(), at_a.hops[0].len());
}

#[test]
fn next_hop_and_shift_read_the_same_directive() {
    let route = three_node_route();
    let mut shifted = route.clone();

    let peeked = route.next_hop(&node(b"A"));
    let taken = shifted.shift(&node(b"A"));

    assert_eq!(peeked, taken);
    assert_eq!(route, three_node_route());
    assert_eq!(shifted.hops.len(), route.hops.len());
    assert_eq!(&shifted.hops[..2], &route.hops[1..]);
}

#[test]
fn shift_with_the_wrong_key_leaves_the_route_alone() {
    let mut route = three_node_route();

    let result = route.shift(&node(b"B"));

    assert_eq!(result, Err(RouteError::HopDecodeProblem));
    assert_eq!(route, three_node_route());
}

#[test]
fn a_hop_that_opens_to_something_else_is_a_deserialization_problem() {
    let cryptde = node(b"A");
    let not_a_hop = cryptde
        .encode(&key(b"A"), &PlainData::new(b"booga"))
        .unwrap();
    let mut route = Route {
        hops: vec![not_a_hop.clone(), CryptData::new(&[1, 2, 3])],
    };

    assert_eq!(
        route.next_hop(&cryptde),
        Err(RouteError::HopDeserializationProblem)
    );
    assert_eq!(
        route.shift(&cryptde),
        Err(RouteError::HopDeserializationProblem)
    );
    assert_eq!(
        route,
        Route {
            hops: vec![not_a_hop, CryptData::new(&[1, 2, 3])],
        }
    );
}

#[test]
fn an_empty_route_has_no_next_hop() {
    let mut route = Route { hops: vec![] };

    assert_eq!(route.next_hop(&node(b"A")), Err(RouteError::EmptyRoute));
    assert_eq!(route.shift(&node(b"A")), Err(RouteError::EmptyRoute));
    assert_eq!(route.hops.len(), 0);
}

#[test]
fn a_segment_with_one_key_is_no_route() {
    let result = Route::one_way(
        RouteSegment::new(vec![&key(b"A")], Component::Neighborhood),
        &node(b"A"),
        None,
    );

    assert_eq!(result, Err(RouteError::IllegalRoute));
}

#[test]
fn a_segment_through_the_empty_key_is_no_route() {
    let result = Route::one_way(
        RouteSegment::new(vec![&key(b"A"), &key(b""), &key(b"C")], Component::Neighborhood),
        &node(b"A"),
        None,
    );

    assert_eq!(result, Err(RouteError::IllegalRoute));
}

#[test]
fn a_round_trip_must_turn_around_where_the_way_out_ends() {
    let result = Route::round_trip(
        RouteSegment::new(vec![&key(b"A"), &key(b"B")], Component::ProxyClient),
        RouteSegment::new(vec![&key(b"C"), &key(b"A")], Component::ProxyServer),
        &node(b"A"),
        None,
        7,
    );

    assert_eq!(result, Err(RouteError::IllegalRoute));
}

#[test]
fn a_round_trip_needs_two_keys_each_way() {
    let over_short = Route::round_trip(
        RouteSegment::new(vec![&key(b"B")], Component::ProxyClient),
        RouteSegment::new(vec![&key(b"B"), &key(b"A")], Component::ProxyServer),
        &node(b"A"),
        None,
        7,
    );
    let back_short = Route::round_trip(
        RouteSegment::new(vec![&key(b"A"), &key(b"B")], Component::ProxyClient),
        RouteSegment::new(vec![&key(b"B")], Component::ProxyServer),
        &node(b"A"),
        None,
        7,
    );

    assert_eq!(over_short, Err(RouteError::IllegalRoute));
    assert_eq!(back_short, Err(RouteError::IllegalRoute));
}

#[test]
fn a_round_trip_ends_with_the_return_route_id() {
    let origin = node(b"A");
    let route = Route::round_trip(
        RouteSegment::new(vec![&key(b"A"), &key(b"B")], Component::ProxyClient),
        RouteSegment::new(vec![&key(b"B"), &key(b"A")], Component::ProxyServer),
        &origin,
        Some(Wallet::new("w")),
        0xDEAD_BEEF,
    )
    .unwrap();

    assert_eq!(route.hops.len(), 4);
    assert_eq!(
        route.hops[3],
        encodex(&origin, &key(b"A"), &0xDEAD_BEEFu32).unwrap()
    );
    assert_eq!(decodex::<CryptDENull, u32>(&origin, &route.hops[3]), Ok(0xDEAD_BEEF));
    assert_eq!(
        origin.decode(&route.hops[3]).unwrap().as_slice(),
        &[0x1B, 0, 0, 0, 0, 0xDE, 0xAD, 0xBE, 0xEF]
    );
    let mut at_b = route.clone();
    at_b.shift(&origin).unwrap();
    assert_eq!(
        at_b.shift(&node(b"B")).unwrap(),
        LiveHop::new(&key(b"A"), Some(Wallet::new("w")), Component::ProxyClient)
    );
    assert_eq!(
        at_b.shift(&origin).unwrap(),
        LiveHop::new(&key(b""), Some(Wallet::new("w")), Component::ProxyServer)
    );
}

#[test]
fn route_error_names() {
    assert_eq!(RouteError::EmptyRoute.name(), "EmptyRoute");
    assert_eq!(RouteError::HopDecodeProblem.name(), "HopDecodeProblem");
    assert_eq!(
        RouteError::HopDeserializationProblem.name(),
        "HopDeserializationProblem"
    );
    assert_eq!(RouteError::IllegalRoute.name(), "IllegalRoute");
    assert_eq!(
        format!("{:?}", RouteError::HopDecodeProblem),
        RouteError::HopDecodeProblem.name()
    );
}

#[test]
fn the_null_cipher_seals_and_opens() {
    let cryptde = node(b"key");

    let sealed = cryptde.encode(&key(b"key"), &PlainData::new(b"data")).unwrap();

    assert_eq!(sealed.as_slice(), b"keydata");
    assert_eq!(cryptde.decode(&sealed), Ok(PlainData::new(b"data")));
    assert_eq!(cryptde.public_key(), key(b"key"));
    assert_eq!(cryptde.private_key().as_slice(), b"key");
}

#[test]
fn the_null_cipher_refuses_what_it_must() {
    let cryptde = node(b"key");

    assert_eq!(
        cryptde.encode(&key(b""), &PlainData::new(b"data")),
        Err(CryptdecError::EmptyKey)
    );
    assert_eq!(
        cryptde.encode(&key(b"key"), &PlainData::new(b"")),
        Err(CryptdecError::EmptyData)
    );
    assert_eq!(
        cryptde.decode(&CryptData::new(b"")),
        Err(CryptdecError::EmptyData)
    );
    assert_eq!(
        cryptde.decode(&CryptData::new(b"ke")),
        Err(CryptdecError::OtherError)
    );
    assert_eq!(
        cryptde.decode(&CryptData::new(b"other key and data")),
        Err(CryptdecError::OtherError)
    );
    assert_eq!(
        node(b"").decode(&CryptData::new(b"data")),
        Err(CryptdecError::EmptyKey)
    );
    assert_eq!(
        decodex::<CryptDENull, LiveHop>(&cryptde, &CryptData::new(b"keydata")),
        Err(CryptdecError::SerializationError)
    );
}

#[test]
fn cipher_error_names() {
    assert_eq!(CryptdecError::EmptyKey.name(), "EmptyKey");
    assert_eq!(CryptdecError::EmptyData.name(), "EmptyData");
    assert_eq!(CryptdecError::SerializationError.name(), "SerializationError");
    assert_eq!(CryptdecError::OtherError.name(), "OtherError");
}
