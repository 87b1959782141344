//! What holds of the library as a whole, proved from the contracts of its
//! parts.

use vstd::prelude::*;
use crate::cryptde::{decodex_spec, encodex_spec, lemma_decodex_encodex, CryptDE, CryptdecError};
use crate::dispatcher::Component;
use crate::hop::{LiveHop, LiveHopView};
use crate::hopper::{IncipientCoresPackage, MessageType, MessageTypeView, PackageView};
use crate::live_cores_package::{ExpiredView, LiveCoresPackage};
use crate::net::IpAddress;
use crate::proxy_client::{
    accepts, context_of, contexts_after_request, contexts_after_response, dns_failure_outcome,
    relays, response_outcome, response_payload, Contexts, DnsFailureOutcomeView, ExitReportView,
    InboundView, RequestView, ResponseOutcomeView,
};
use crate::route::{
    directive, garbage, round_trip_stops, sealed_hop, sealed_hops, segment_stops, GARBAGE_BYTE,
    Itinerary, Route, RouteError,
};
use crate::wire::{decoded, lemma_decoded_wire, optional_text_fits, Wire};

verus! {

/// Shifting leaves the number of hops as it was. When the top hop can be
/// read, the hops below it move up by one and the new last hop is padding,
/// every byte of it `0x34`, as long as the hop that was taken off.
pub proof fn law_shift_keeps_shape<C: CryptDE>(route: Seq<Seq<u8>>, cryptde: &C)
    ensures
        Route::shifted_spec(route, cryptde).len() == route.len(),
        Route::next_hop_spec(route, cryptde) is Ok ==> ({
            let shifted = Route::shifted_spec(route, cryptde);
            &&& shifted.last().len() == route[0].len()
            &&& forall|j: int| 0 <= j < shifted.last().len() ==> shifted.last()[j] == 0x34u8
            &&& forall|i: int| 0 <= i < route.len() - 1 ==> shifted[i] == route[i + 1]
        }),
{
    if Route::next_hop_spec(route, cryptde) is Ok {
        let shifted = Route::shifted_spec(route, cryptde);
        assert(shifted.last() == garbage(route[0].len()));
    }
}

/// A route whose hops all have one length keeps that length in every hop
/// when it is shifted.
pub proof fn law_shift_keeps_hop_length<C: CryptDE>(route: Seq<Seq<u8>>, cryptde: &C, len: nat)
    requires
        forall|i: int| 0 <= i < route.len() ==> (#[trigger] route[i]).len() == len,
    ensures
        forall|i: int|
            0 <= i < route.len() ==> (#[trigger] Route::shifted_spec(route, cryptde)[i]).len()
                == len,
{
    let shifted = Route::shifted_spec(route, cryptde);
    if Route::next_hop_spec(route, cryptde) is Ok {
        assert forall|i: int| 0 <= i < route.len() implies (#[trigger] shifted[i]).len()
            == len by {
            if i < route.len() - 1 {
                assert(shifted[i] == route[i + 1]);
            } else {
                assert(shifted[i] == garbage(route[0].len()));
                assert(route[0].len() == len);
            }
        }
    }
}

/// What `shift` does to a route, as one value: the directive it hands back
/// and the route it leaves.
pub open spec fn shift_spec<C: CryptDE>(route: Seq<Seq<u8>>, cryptde: &C) -> (
    Result<LiveHopView, RouteError>,
    Seq<Seq<u8>>,
) {
    (Route::next_hop_spec(route, cryptde), Route::shifted_spec(route, cryptde))
}

/// On the same route and with the same key, `shift` hands back the
/// directive that `next_hop` reads, and fails where `next_hop` fails, with
/// the same error.
pub proof fn law_shift_returns_what_next_hop_reads<C: CryptDE>(route: Seq<Seq<u8>>, cryptde: &C)
    ensures
        shift_spec(route, cryptde).0 == Route::next_hop_spec(route, cryptde),
        shift_spec(route, cryptde).0 is Err ==> shift_spec(route, cryptde).1 == route,
{
}

/// Whether each node of `nodes` holds the key of the stop at its place.
pub open spec fn nodes_hold_stops<C: CryptDE>(nodes: Seq<C>, stops: Itinerary) -> bool {
    &&& nodes.len() == stops.len()
    &&& forall|i: int|
        0 <= i < nodes.len() ==> (#[trigger] nodes[i]).public_key_view() == stops[i].0
}

/// Whether every key on the way is short enough to be written into a directive.
pub open spec fn stops_fit(stops: Itinerary) -> bool {
    forall|i: int| 0 <= i < stops.len() ==> (#[trigger] stops[i]).0.len() <= u64::MAX
}

/// Whether `route` begins with the directives for `stops`, each sealed for
/// the node at its stop.
pub open spec fn route_follows<C: CryptDE>(
    route: Seq<Seq<u8>>,
    stops: Itinerary,
    wallet: Option<Seq<char>>,
) -> bool {
    &&& route.len() >= stops.len()
    &&& forall|i: int|
        0 <= i < stops.len() ==> (#[trigger] sealed_hop::<C>(stops, wallet, i)) == Ok::<
            Seq<u8>,
            CryptdecError,
        >(route[i])
}

/// The package after the first `count` nodes of `nodes` have each taken
/// their hop off it and passed it on; nothing if one of them could not.
pub open spec fn after_hops<C: CryptDE>(package: PackageView, nodes: Seq<C>, count: nat) -> Option<
    PackageView,
>
    decreases count,
{
    if count == 0 {
        Some(package)
    } else {
        match after_hops(package, nodes, (count - 1) as nat) {
            Some(held) => match LiveCoresPackage::to_next_live_spec(held, &nodes[count - 1]) {
                Ok((_, next)) => Some(next),
                Err(_) => None,
            },
            None => None,
        }
    }
}

/// The padding that stands at the end of a route after `count` shifts.
pub open spec fn padding_after(route: Seq<Seq<u8>>, count: nat) -> Seq<Seq<u8>> {
    Seq::new(count, |j: int| garbage(route[j].len()))
}

/// The node at stop `at` reads its own directive in the hop sealed for it.
proof fn lemma_node_reads_its_hop<C: CryptDE>(
    stops: Itinerary,
    wallet: Option<Seq<char>>,
    node: &C,
    at: int,
)
    requires
        0 <= at < stops.len(),
        stops_fit(stops),
        optional_text_fits(wallet),
        node.public_key_view() == stops[at].0,
        sealed_hop::<C>(stops, wallet, at) is Ok,
    ensures
        decodex_spec::<C, LiveHop>(node, sealed_hop::<C>(stops, wallet, at)->Ok_0) == Ok::<
            LiveHopView,
            CryptdecError,
        >(directive(stops, wallet, at)),
{
    let told = directive(stops, wallet, at);
    if at + 1 < stops.len() {
        assert(told.public_key == stops[at + 1].0);
    }
    assert(LiveHop::fits(told));
    lemma_decodex_encodex::<C, LiveHop>(node, told);
}

/// After `count` nodes the hops not yet read stand at the top, in order,
/// and behind them one run of padding for each hop taken off.
proof fn lemma_after_hops<C: CryptDE>(
    stops: Itinerary,
    wallet: Option<Seq<char>>,
    nodes: Seq<C>,
    package: PackageView,
    count: nat,
)
    requires
        count <= stops.len(),
        stops_fit(stops),
        optional_text_fits(wallet),
        nodes_hold_stops(nodes, stops),
        route_follows::<C>(package.route, stops, wallet),
    ensures
        after_hops(package, nodes, count) == Some(
            PackageView {
                route: package.route.subrange(count as int, package.route.len() as int)
                    + padding_after(package.route, count),
                payload: package.payload,
            },
        ),
    decreases count,
{
    let route = package.route;
    if count == 0 {
        assert(route.subrange(0, route.len() as int) + padding_after(route, 0) =~= route);
    } else {
        let before = (count - 1) as nat;
        lemma_after_hops(stops, wallet, nodes, package, before);
        let held = route.subrange(before as int, route.len() as int) + padding_after(
            route,
            before,
        );
        assert(held[0] == route[before as int]);
        assert(sealed_hop::<C>(stops, wallet, before as int) is Ok);
        lemma_node_reads_its_hop(stops, wallet, &nodes[before as int], before as int);
        assert(Route::next_hop_spec(held, &nodes[before as int]) is Ok);
        assert(Route::shifted_spec(held, &nodes[before as int]) =~= route.subrange(
            count as int,
            route.len() as int,
        ) + padding_after(route, count));
    }
}

/// Every node on the way finds its own directive on top. Let the route of
/// `package` begin with the directives for `stops`, and let each node hold
/// the key of its stop. Then the nodes before stop `at` can each take their
/// hop off and pass the package on; what reaches the node at `at` has the
/// payload untouched and as many hops as at the start, the hops not yet
/// read on top and in their order; and that node reads in the top hop the
/// key of the stop after it, or the empty key if it is the last, the
/// consuming wallet, and the component it is to hand the package to.
pub proof fn law_every_node_reads_its_directive<C: CryptDE>(
    stops: Itinerary,
    wallet: Option<Seq<char>>,
    nodes: Seq<C>,
    package: PackageView,
    at: nat,
)
    requires
        at < stops.len(),
        stops_fit(stops),
        optional_text_fits(wallet),
        nodes_hold_stops(nodes, stops),
        route_follows::<C>(package.route, stops, wallet),
    ensures
        after_hops(package, nodes, at) matches Some(held) && held.payload == package.payload
            && held.route.len() == package.route.len() && (forall|j: int|
            at <= j < package.route.len() ==> held.route[j - at] == package.route[j])
            && Route::next_hop_spec(held.route, &nodes[at as int]) == Ok::<
            LiveHopView,
            RouteError,
        >(directive(stops, wallet, at as int)),
{
    lemma_after_hops(stops, wallet, nodes, package, at);
    let held = after_hops(package, nodes, at)->Some_0;
    assert(held.route[0] == package.route[at as int]);
    assert(sealed_hop::<C>(stops, wallet, at as int) is Ok);
    lemma_node_reads_its_hop(stops, wallet, &nodes[at as int], at as int);
}

/// A package travels a one-way route whole. Let a route lead along the
/// nodes of `keys`, each node holding the key at its place, and let
/// `payload` be sealed for the last of them. When the first node sends the
/// package out and each node up to the last but one passes it on, every one
/// of them can read its hop; the package that reaches the last node has as
/// many hops as the route had at the start, and the same sealed payload; and
/// the last node opens it to the payload that was put in, keeps the route it
/// arrived with as the way back, and learns the consuming wallet.
pub proof fn law_onion_round_trip<C: CryptDE>(
    keys: Seq<Seq<u8>>,
    recipient: Component,
    wallet: Option<Seq<char>>,
    nodes: Seq<C>,
    payload: MessageTypeView,
    immediate_neighbor_ip: IpAddress,
)
    requires
        keys.len() >= 2,
        stops_fit(segment_stops(keys, recipient)),
        optional_text_fits(wallet),
        MessageType::fits(payload),
        nodes_hold_stops(nodes, segment_stops(keys, recipient)),
        Route::one_way_spec::<C>(keys, recipient, wallet) is Ok,
        IncipientCoresPackage::new_spec::<C>(
            Route::one_way_spec::<C>(keys, recipient, wallet)->Ok_0,
            payload,
            keys.last(),
        ) is Ok,
    ensures
        ({
            let route = Route::one_way_spec::<C>(keys, recipient, wallet)->Ok_0;
            let incipient = IncipientCoresPackage::new_spec::<C>(route, payload, keys.last())->Ok_0;
            let last = (keys.len() - 1) as nat;
            &&& LiveCoresPackage::from_incipient_spec(incipient, &nodes[0]) matches Ok(
                (sent, next_key),
            ) && next_key == keys[1] && after_hops(incipient, nodes, 1) == Some(sent)
            &&& after_hops(incipient, nodes, last) matches Some(arrived) && arrived.route.len()
                == route.len() && arrived.payload == incipient.payload
                && LiveCoresPackage::to_expired_spec(
                arrived,
                immediate_neighbor_ip,
                &nodes[last as int],
            ) == Ok::<ExpiredView, Seq<char>>(
                ExpiredView {
                    immediate_neighbor_ip,
                    consuming_wallet: wallet,
                    remaining_route: arrived.route,
                    payload,
                    payload_len: incipient.payload.len(),
                },
            )
        }),
{
    let stops = segment_stops(keys, recipient);
    let route = Route::one_way_spec::<C>(keys, recipient, wallet)->Ok_0;
    let incipient = IncipientCoresPackage::new_spec::<C>(route, payload, keys.last())->Ok_0;
    let last = (keys.len() - 1) as nat;
    assert(route == sealed_hops::<C>(stops, wallet));
    assert(route_follows::<C>(incipient.route, stops, wallet));
    // The first node sends the package out.
    law_every_node_reads_its_directive(stops, wallet, nodes, incipient, 0);
    assert(after_hops(incipient, nodes, 0) == Some(incipient));
    assert(directive(stops, wallet, 0).public_key == keys[1]);
    // The package reaches the last node, which opens the payload.
    law_every_node_reads_its_directive(stops, wallet, nodes, incipient, last);
    assert(nodes[last as int].public_key_view() == keys.last());
    lemma_decodex_encodex::<C, MessageType>(&nodes[last as int], payload);
}

/// A round trip leads out and back. The route that `round_trip` builds
/// begins with the directives for the stops of the way out followed by those
/// of the way back, so every node on the way reads its own directive; the
/// node where the way turns around is told to hand the package to the
/// component the way out was meant for, and where to send what it answers;
/// the last node is told that the road ends with it. Behind the directives
/// stands one more blob, which comes to the top once every node has taken
/// its hop off, and in which the node that built the route reads the
/// return-route identifier it put there.
pub proof fn law_round_trip_leads_out_and_back<C: CryptDE>(
    over: Seq<Seq<u8>>,
    over_recipient: Component,
    back: Seq<Seq<u8>>,
    back_recipient: Component,
    wallet: Option<Seq<char>>,
    return_route_id: u32,
    origin: &C,
    nodes: Seq<C>,
    payload: Seq<u8>,
)
    requires
        stops_fit(round_trip_stops(over, over_recipient, back, back_recipient)),
        optional_text_fits(wallet),
        nodes_hold_stops(nodes, round_trip_stops(over, over_recipient, back, back_recipient)),
        Route::round_trip_spec::<C>(
            over,
            over_recipient,
            back,
            back_recipient,
            wallet,
            return_route_id,
            origin.public_key_view(),
        ) is Ok,
    ensures
        ({
            let stops = round_trip_stops(over, over_recipient, back, back_recipient);
            let route = Route::round_trip_spec::<C>(
                over,
                over_recipient,
                back,
                back_recipient,
                wallet,
                return_route_id,
                origin.public_key_view(),
            )->Ok_0;
            let turn = over.len() - 1;
            &&& stops.len() == over.len() + back.len() - 1
            &&& route.len() == stops.len() + 1
            &&& route_follows::<C>(route, stops, wallet)
            &&& directive(stops, wallet, turn) == (LiveHopView {
                public_key: back[1],
                consuming_wallet: wallet,
                component: over_recipient,
            })
            &&& directive(stops, wallet, stops.len() - 1) == (LiveHopView {
                public_key: Seq::empty(),
                consuming_wallet: wallet,
                component: back_recipient,
            })
            &&& after_hops(PackageView { route, payload }, nodes, stops.len()) matches Some(home)
                && home.route.len() == route.len() && decodex_spec::<C, u32>(origin, home.route[0])
                == Ok::<u32, CryptdecError>(return_route_id)
        }),
{
    let stops = round_trip_stops(over, over_recipient, back, back_recipient);
    let route = Route::round_trip_spec::<C>(
        over,
        over_recipient,
        back,
        back_recipient,
        wallet,
        return_route_id,
        origin.public_key_view(),
    )->Ok_0;
    let sealed = sealed_hops::<C>(stops, wallet);
    let id = encodex_spec::<C, u32>(origin.public_key_view(), return_route_id)->Ok_0;
    assert(route == sealed.push(id));
    assert(route_follows::<C>(route, stops, wallet)) by {
        assert forall|i: int| 0 <= i < stops.len() implies (#[trigger] sealed_hop::<C>(
            stops,
            wallet,
            i,
        )) == Ok::<Seq<u8>, CryptdecError>(route[i]) by {
            assert(route[i] == sealed[i]);
        }
    }
    let package = PackageView { route, payload };
    lemma_after_hops(stops, wallet, nodes, package, stops.len());
    let home = after_hops(package, nodes, stops.len())->Some_0;
    assert(home.route[0] == route[stops.len() as int]);
    lemma_decodex_encodex::<C, u32>(origin, return_route_id);
}

/// Padding is never read as a directive, however long it is.
pub proof fn law_padding_is_no_directive(len: nat)
    ensures
        decoded::<LiveHop>(garbage(len)) is None,
{
    if len > 0 {
        assert(garbage(len)[0] == GARBAGE_BYTE);
    }
}

/// Nothing can be sealed for the empty key, whatever the cipher: a package
/// addressed to it is not made, and the message says why. This is how the
/// end of a route makes itself felt.
pub proof fn law_empty_key_ends_the_road<C: CryptDE>(route: Seq<Seq<u8>>, payload: MessageTypeView)
    ensures
        IncipientCoresPackage::new_spec::<C>(route, payload, Seq::empty()) == Err::<
            PackageView,
            Seq<char>,
        >("Could not encrypt payload: "@ + "EmptyKey"@),
{
    C::encoded_needs_key_and_data(Seq::empty(), MessageType::wire(payload));
}

/// A package that is written and read back is the same package.
pub proof fn law_package_survives_the_wire(package: PackageView)
    requires
        LiveCoresPackage::fits(package),
    ensures
        decoded::<LiveCoresPackage>(LiveCoresPackage::wire(package)) == Some(package),
{
    lemma_decoded_wire::<LiveCoresPackage>(package);
}

/// The life of a stream, as the exit actor sees it. A stream is live while
/// the table holds a context for its key.
///
/// * An accepted request makes its stream live, or, if it was live, puts the
///   request's context in the place of the old one; the other streams are
///   not touched. A refused request changes nothing.
/// * A chunk of a live stream that can be wrapped is relayed; the stream
///   stays live with the same context unless the chunk is the last, and then
///   it is live no longer.
/// * A chunk of a live stream that cannot be wrapped changes nothing.
/// * A chunk of a stream that is not live is unsolicited, and the stream
///   stays as it is.
/// * A failed resolution for a stream that is not live is answered with the
///   stream's key and nothing else.
///
/// A failed resolution cannot change the table at all: its handler only
/// reads the actor.
pub proof fn law_stream_life_cycle<C: CryptDE>(
    contexts: Contexts,
    local_key: Seq<u8>,
    request: RequestView,
    chunk: InboundView,
    other: Seq<u8>,
)
    ensures
        ({
            let after = contexts_after_request(contexts, local_key, request);
            let key = request.payload.stream_key;
            &&& accepts(local_key, request) ==> after.contains_key(key) && after[key]
                == context_of(request)
            &&& other != key ==> after.contains_key(other) == contexts.contains_key(other) && (
            contexts.contains_key(other) ==> after[other] == contexts[other])
            &&& !accepts(local_key, request) ==> after == contexts
        }),
        ({
            let after = contexts_after_response::<C>(contexts, chunk);
            let key = chunk.stream_key;
            &&& relays::<C>(contexts, chunk) && !chunk.last_data ==> after == contexts
            &&& relays::<C>(contexts, chunk) && chunk.last_data ==> !after.contains_key(key)
            &&& !relays::<C>(contexts, chunk) ==> after == contexts
            &&& other != key ==> after.contains_key(other) == contexts.contains_key(other) && (
            contexts.contains_key(other) ==> after[other] == contexts[other])
            &&& response_outcome::<C>(contexts, 0, 0, chunk) is Relayed <==> relays::<C>(
                contexts,
                chunk,
            )
            &&& response_outcome::<C>(contexts, 0, 0, chunk) is Unsolicited
                <==> !contexts.contains_key(key)
        }),
        !contexts.contains_key(other) ==> dns_failure_outcome::<C>(contexts, other)
            == (DnsFailureOutcomeView::NonexistentStream { stream_key: other }),
{
}

/// The newer return route wins. After two accepted requests for one stream,
/// a chunk of that stream is wrapped for the way back along the route of the
/// second request, sealed for the originator of the second request, and
/// billed to the wallet of the second request.
pub proof fn law_new_return_route_overwrites<C: CryptDE>(
    contexts: Contexts,
    local_key: Seq<u8>,
    first: RequestView,
    second: RequestView,
    service_rate: u64,
    byte_rate: u64,
    chunk: InboundView,
)
    requires
        accepts(local_key, first),
        accepts(local_key, second),
        first.payload.stream_key == second.payload.stream_key,
        chunk.stream_key == second.payload.stream_key,
    ensures
        ({
            let after = contexts_after_request(
                contexts_after_request(contexts, local_key, first),
                local_key,
                second,
            );
            let outcome = response_outcome::<C>(after, service_rate, byte_rate, chunk);
            match IncipientCoresPackage::new_spec::<C>(
                second.remaining_route,
                response_payload(chunk),
                second.payload.originator_public_key,
            ) {
                Ok(package) => outcome matches ResponseOutcomeView::Relayed {
                    package: sent,
                    exit_report,
                    ..
                } && sent == package && sent.route == second.remaining_route && (
                exit_report matches Some(report) ==> second.consuming_wallet == Some(
                    report.consuming_wallet,
                )),
                Err(error) => outcome matches ResponseOutcomeView::PackagingFailed {
                    error: told,
                    ..
                } && told == error,
            }
        }),
{
}

/// Accounting goes by the chunk. A chunk that is relayed for a stream with a
/// consuming wallet brings exactly one report, for that wallet, for as many
/// bytes as the chunk has, at the actor's rates; a chunk relayed for a stream
/// without one brings none; and a chunk that is not relayed brings none.
pub proof fn law_accounting_parity<C: CryptDE>(
    contexts: Contexts,
    service_rate: u64,
    byte_rate: u64,
    chunk: InboundView,
)
    ensures
        match response_outcome::<C>(contexts, service_rate, byte_rate, chunk) {
            ResponseOutcomeView::Relayed { exit_report, .. } => contexts.contains_key(
                chunk.stream_key,
            ) && exit_report == (match contexts[chunk.stream_key].consuming_wallet {
                Some(wallet) => Some(
                    ExitReportView {
                        consuming_wallet: wallet,
                        payload_size: chunk.data.len(),
                        service_rate,
                        byte_rate,
                    },
                ),
                None => None,
            }),
            _ => true,
        },
{
}

/// A chunk for a stream that is not known brings nothing to the hopper and
/// nothing to the accountant, and leaves the table as it was.
pub proof fn law_unsolicited_response_is_isolated<C: CryptDE>(
    contexts: Contexts,
    service_rate: u64,
    byte_rate: u64,
    chunk: InboundView,
)
    requires
        !contexts.contains_key(chunk.stream_key),
    ensures
        response_outcome::<C>(contexts, service_rate, byte_rate, chunk)
            == (ResponseOutcomeView::Unsolicited {
            data_len: chunk.data.len(),
            source: chunk.source,
            sequence_number: chunk.sequence_number,
        }),
        contexts_after_response::<C>(contexts, chunk) == contexts,
{
}

} // verus!
