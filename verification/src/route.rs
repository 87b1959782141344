//! Routes: the ordered hop directives a package carries, each sealed for
//! the node that is to read it.

use vstd::prelude::*;
use crate::cryptde::{
    decodex_spec, encodex, encodex_spec, CryptDE, CryptData, CryptdecError, PublicKey,
};
use crate::dispatcher::Component;
use crate::hop::{LiveHop, LiveHopView};
use crate::wallet::{clone_wallet, wallet_view, Wallet};
use crate::wire::{
    blob, head, lemma_blob_parsed, lemma_head_parsed, lemma_parse_blob, lemma_parse_head,
    parse_blob, parse_head, put_blob, put_head, take_blob, take_head, ARRAY_HEAD, Wire,
};

verus! {

/// The byte that padding is made of.
pub const GARBAGE_BYTE: u8 = 0x34;

/// Why a route could not be built or read.
#[derive(Debug, Clone, Copy, PartialEq, Eq, Structural)]
pub enum RouteError {
    /// The route has no hops.
    EmptyRoute,
    /// The top hop could not be opened with the key at hand.
    HopDecodeProblem,
    /// The top hop opened, but what it holds is no hop directive.
    HopDeserializationProblem,
    /// The segments do not describe a route: one has fewer than two keys, a
    /// round trip does not turn around where the way out ends, or a
    /// directive cannot be sealed for its reader.
    IllegalRoute,
}

impl RouteError {
    /// The name of this error as it appears in messages.
    pub open spec fn name_spec(self) -> Seq<char> {
        match self {
            RouteError::EmptyRoute => "EmptyRoute"@,
            RouteError::HopDecodeProblem => "HopDecodeProblem"@,
            RouteError::HopDeserializationProblem => "HopDeserializationProblem"@,
            RouteError::IllegalRoute => "IllegalRoute"@,
        }
    }

    pub fn name(self) -> (name: &'static str)
        ensures
            name@ == self.name_spec(),
    {
        match self {
            RouteError::EmptyRoute => "EmptyRoute",
            RouteError::HopDecodeProblem => "HopDecodeProblem",
            RouteError::HopDeserializationProblem => "HopDeserializationProblem",
            RouteError::IllegalRoute => "IllegalRoute",
        }
    }
}

/// A stretch of road: the nodes to pass, in order, and the component of the
/// last one that is to receive the package.
#[derive(Debug, PartialEq, Eq)]
pub struct RouteSegment {
    pub keys: Vec<PublicKey>,
    pub recipient: Component,
}

/// The keys of a list of nodes as mathematical values.
pub open spec fn keys_view(keys: Seq<PublicKey>) -> Seq<Seq<u8>> {
    Seq::new(keys.len(), |i: int| keys[i]@)
}

/// The keys of a list of borrowed keys as mathematical values.
pub open spec fn borrowed_keys_view(keys: Seq<&PublicKey>) -> Seq<Seq<u8>> {
    Seq::new(keys.len(), |i: int| keys[i]@)
}

impl RouteSegment {
    pub fn new(keys: Vec<&PublicKey>, recipient: Component) -> (segment: RouteSegment)
        ensures
            segment.recipient == recipient,
            keys_view(segment.keys@) == borrowed_keys_view(keys@),
    {
        let mut owned: Vec<PublicKey> = Vec::new();
        let mut i: usize = 0;
        while i < keys.len()
            invariant
                i <= keys@.len(),
                owned@.len() == i,
                forall|j: int| 0 <= j < i ==> owned@[j]@ == keys@[j]@,
            decreases keys@.len() - i,
        {
            owned.push(keys[i].clone());
            i += 1;
        }
        assert(keys_view(owned@) =~= borrowed_keys_view(keys@));
        RouteSegment { keys: owned, recipient }
    }
}

/// The hops of a package, top first. The top hop is sealed for the node that
/// holds the package now.
#[derive(Debug, PartialEq, Eq)]
pub struct Route {
    pub hops: Vec<CryptData>,
}

impl View for Route {
    type V = Seq<Seq<u8>>;

    open spec fn view(&self) -> Seq<Seq<u8>> {
        Seq::new(self.hops@.len(), |i: int| self.hops@[i]@)
    }
}

impl Clone for Route {
    fn clone(&self) -> (copy: Self)
        ensures
            copy@ == self@,
    {
        let mut hops: Vec<CryptData> = Vec::new();
        let mut i: usize = 0;
        while i < self.hops.len()
            invariant
                i <= self.hops@.len(),
                hops@.len() == i,
                forall|j: int| 0 <= j < i ==> hops@[j]@ == self.hops@[j]@,
            decreases self.hops@.len() - i,
        {
            hops.push(self.hops[i].clone());
            i += 1;
        }
        let copy = Route { hops };
        assert(copy@ =~= self@);
        copy
    }
}

/// The bytes of a list of blobs, one after the other.
pub open spec fn blobs(hops: Seq<Seq<u8>>) -> Seq<u8>
    decreases hops.len(),
{
    if hops.len() == 0 {
        Seq::empty()
    } else {
        blob(hops.first()) + blobs(hops.drop_first())
    }
}

/// The `count` blobs at the head of `s` and what follows them.
pub open spec fn parse_blobs(s: Seq<u8>, count: nat) -> Option<(Seq<Seq<u8>>, Seq<u8>)>
    decreases count,
{
    if count == 0 {
        Some((Seq::empty(), s))
    } else {
        match parse_blob(s) {
            Some((first, rest)) => match parse_blobs(rest, (count - 1) as nat) {
                Some((more, after)) => Some((seq![first] + more, after)),
                None => None,
            },
            None => None,
        }
    }
}

/// Whether every blob of the list is short enough to be written.
pub open spec fn blobs_fit(hops: Seq<Seq<u8>>) -> bool {
    forall|i: int| 0 <= i < hops.len() ==> (#[trigger] hops[i]).len() <= u64::MAX
}

/// Writing one more blob behind a list appends that blob's bytes.
pub proof fn lemma_blobs_push(hops: Seq<Seq<u8>>, last: Seq<u8>)
    ensures
        blobs(hops.push(last)) == blobs(hops) + blob(last),
    decreases hops.len(),
{
    let longer = hops.push(last);
    if hops.len() == 0 {
        assert(longer.drop_first() =~= Seq::<Seq<u8>>::empty());
        assert(blobs(longer.drop_first()) =~= Seq::<u8>::empty());
        assert(blobs(longer) =~= blob(last));
        assert(blobs(hops) + blob(last) =~= blob(last));
    } else {
        lemma_blobs_push(hops.drop_first(), last);
        assert(longer.drop_first() =~= hops.drop_first().push(last));
        assert(longer.first() == hops.first());
        assert(blobs(longer) =~= blobs(hops) + blob(last));
    }
}

/// A list of blobs is read back from its own bytes, whatever follows them.
pub proof fn lemma_parse_blobs(hops: Seq<Seq<u8>>, rest: Seq<u8>)
    requires
        blobs_fit(hops),
    ensures
        parse_blobs(blobs(hops) + rest, hops.len()) == Some((hops, rest)),
    decreases hops.len(),
{
    if hops.len() == 0 {
        assert(blobs(hops) + rest =~= rest);
        assert(hops =~= Seq::<Seq<u8>>::empty());
    } else {
        let tail = hops.drop_first();
        let after_first = blobs(tail) + rest;
        assert(blobs(hops) + rest =~= blob(hops.first()) + after_first);
        assert(hops.first() == hops[0]);
        lemma_parse_blob(hops.first(), after_first);
        assert forall|i: int| 0 <= i < tail.len() implies (#[trigger] tail[i]).len()
            <= u64::MAX by {
            assert(tail[i] == hops[i + 1]);
        }
        lemma_parse_blobs(tail, rest);
        assert(seq![hops.first()] + tail =~= hops);
    }
}

/// Only the bytes of a list of blobs are read as that list.
pub proof fn lemma_blobs_parsed(s: Seq<u8>, count: nat)
    requires
        parse_blobs(s, count) is Some,
    ensures
        parse_blobs(s, count)->Some_0.0.len() == count,
        blobs(parse_blobs(s, count)->Some_0.0) + parse_blobs(s, count)->Some_0.1 == s,
        blobs_fit(parse_blobs(s, count)->Some_0.0),
    decreases count,
{
    let (hops, after) = parse_blobs(s, count)->Some_0;
    if count == 0 {
        assert(blobs(hops) + after =~= s);
    } else {
        lemma_blob_parsed(s);
        let (first, rest) = parse_blob(s)->Some_0;
        lemma_blobs_parsed(rest, (count - 1) as nat);
        let (more, _) = parse_blobs(rest, (count - 1) as nat)->Some_0;
        assert(hops =~= seq![first] + more);
        assert(hops.first() == first);
        assert(hops.drop_first() =~= more);
        assert(blobs(hops) + after =~= blob(first) + (blobs(more) + after));
        assert forall|i: int| 0 <= i < hops.len() implies (#[trigger] hops[i]).len()
            <= u64::MAX by {
            if i > 0 {
                assert(hops[i] == more[i - 1]);
            }
        }
    }
}

/// A route travels as a list of blobs: the head of a list with the number
/// of the hops, then one blob for each.
impl Wire for Route {
    open spec fn wire(v: Seq<Seq<u8>>) -> Seq<u8> {
        head(ARRAY_HEAD, v.len() as u64) + blobs(v)
    }

    open spec fn parse(s: Seq<u8>) -> Option<(Seq<Seq<u8>>, Seq<u8>)> {
        match parse_head(ARRAY_HEAD, s) {
            Some((count, rest)) => parse_blobs(rest, count as nat),
            None => None,
        }
    }

    open spec fn fits(v: Seq<Seq<u8>>) -> bool {
        v.len() <= u64::MAX && blobs_fit(v)
    }

    fn put(&self, out: &mut Vec<u8>) {
        let n: usize = self.hops.len();
        put_head(out, ARRAY_HEAD, n as u64);
        let mut i: usize = 0;
        assert(self@.subrange(0, 0) =~= Seq::<Seq<u8>>::empty());
        assert(out@ =~= old(out)@ + head(ARRAY_HEAD, n as u64) + blobs(self@.subrange(0, 0)));
        while i < n
            invariant
                n == self.hops@.len(),
                i <= n,
                out@ == old(out)@ + head(ARRAY_HEAD, n as u64) + blobs(self@.subrange(0, i as int)),
                blobs_fit(self@.subrange(0, i as int)),
            decreases n - i,
        {
            let ghost before = out@;
            put_blob(out, self.hops[i].as_slice());
            proof {
                let done = self@.subrange(0, i as int);
                lemma_blobs_push(done, self@[i as int]);
                assert(self@.subrange(0, i as int + 1) =~= done.push(self@[i as int]));
                assert(out@ =~= old(out)@ + head(ARRAY_HEAD, n as u64) + blobs(
                    self@.subrange(0, i as int + 1),
                ));
            }
            i += 1;
        }
        assert(self@.subrange(0, n as int) =~= self@);
    }

    fn take<'a>(input: &'a [u8]) -> (r: Option<(Self, &'a [u8])>) {
        let (count, start) = take_head(ARRAY_HEAD, input)?;
        let mut rest = start;
        let mut hops: Vec<CryptData> = Vec::new();
        let mut i: u64 = 0;
        assert((Route { hops })@ =~= Seq::<Seq<u8>>::empty());
        while i < count
            invariant
                i <= count,
                hops@.len() == i,
                parse_head(ARRAY_HEAD, input@) == Some((count, start@)),
                parse_blobs(start@, count as nat) == (match parse_blobs(
                    rest@,
                    (count - i) as nat,
                ) {
                    Some((more, after)) => Some(((Route { hops })@ + more, after)),
                    None => None,
                }),
            decreases count - i,
        {
            let ghost read = (Route { hops })@;
            match take_blob(rest) {
                Some((first, after_first)) => {
                    hops.push(CryptData::new(first));
                    rest = after_first;
                    proof {
                        assert((Route { hops })@ =~= read.push(first@));
                        assert forall|more: Seq<Seq<u8>>|
                            read + (seq![first@] + more) == #[trigger] (read.push(first@)
                                + more) by {
                            assert(read + (seq![first@] + more) =~= read.push(first@) + more);
                        }
                    }
                },
                None => {
                    return None;
                },
            }
            i += 1;
        }
        let route = Route { hops };
        assert(route@ + Seq::<Seq<u8>>::empty() =~= route@);
        Some((route, rest))
    }

    proof fn lemma_parse_wire(v: Seq<Seq<u8>>, rest: Seq<u8>) {
        lemma_parse_head(ARRAY_HEAD, v.len() as u64, blobs(v) + rest);
        assert(Self::wire(v) + rest =~= head(ARRAY_HEAD, v.len() as u64) + (blobs(v) + rest));
        lemma_parse_blobs(v, rest);
    }

    proof fn lemma_wire_parsed(s: Seq<u8>) {
        let (v, rest) = Self::parse(s)->Some_0;
        lemma_head_parsed(ARRAY_HEAD, s);
        let (count, body) = parse_head(ARRAY_HEAD, s)->Some_0;
        lemma_blobs_parsed(body, count as nat);
        assert(Self::wire(v) + rest =~= head(ARRAY_HEAD, count) + (blobs(v) + rest));
    }
}

/// The nodes a package visits, each with the component that takes the
/// package there.
pub type Itinerary = Seq<(Seq<u8>, Component)>;

/// The stops of one segment: every node but the last only relays.
pub open spec fn segment_stops(keys: Seq<Seq<u8>>, recipient: Component) -> Itinerary {
    Seq::new(
        keys.len(),
        |i: int|
            (
                keys[i],
                if i == keys.len() - 1 {
                    recipient
                } else {
                    Component::Hopper
                },
            ),
    )
}

/// The stops of a round trip. The way back starts at the node where the way
/// out ends, so that node is listed once.
pub open spec fn round_trip_stops(
    over: Seq<Seq<u8>>,
    over_recipient: Component,
    back: Seq<Seq<u8>>,
    back_recipient: Component,
) -> Itinerary {
    segment_stops(over, over_recipient) + segment_stops(back, back_recipient).drop_first()
}

/// What the node at stop `i` is told: the key of the next stop, or the empty
/// key at the end of the road.
pub open spec fn directive(stops: Itinerary, wallet: Option<Seq<char>>, i: int) -> LiveHopView {
    LiveHopView {
        public_key: if i + 1 < stops.len() {
            stops[i + 1].0
        } else {
            Seq::empty()
        },
        consuming_wallet: wallet,
        component: stops[i].1,
    }
}

/// The directive for stop `i`, sealed for the node at that stop.
pub open spec fn sealed_hop<C: CryptDE>(stops: Itinerary, wallet: Option<Seq<char>>, i: int)
    -> Result<Seq<u8>, CryptdecError> {
    encodex_spec::<C, LiveHop>(stops[i].0, directive(stops, wallet, i))
}

/// Whether every directive can be sealed for its reader.
pub open spec fn all_hops_seal<C: CryptDE>(stops: Itinerary, wallet: Option<Seq<char>>) -> bool {
    forall|i: int| 0 <= i < stops.len() ==> (#[trigger] sealed_hop::<C>(stops, wallet, i)) is Ok
}

/// The sealed directives, one for each stop.
pub open spec fn sealed_hops<C: CryptDE>(stops: Itinerary, wallet: Option<Seq<char>>) -> Seq<
    Seq<u8>,
> {
    Seq::new(stops.len(), |i: int| sealed_hop::<C>(stops, wallet, i)->Ok_0)
}

/// A run of `len` padding bytes.
pub open spec fn garbage(len: nat) -> Seq<u8> {
    Seq::new(len, |i: int| GARBAGE_BYTE)
}

/// The result of building a route, seen as bytes.
pub open spec fn route_view(r: Result<Route, RouteError>) -> Result<Seq<Seq<u8>>, RouteError> {
    match r {
        Ok(route) => Ok(route@),
        Err(e) => Err(e),
    }
}

/// The result of reading a hop, seen as a mathematical value.
pub open spec fn hop_view(r: Result<LiveHop, RouteError>) -> Result<LiveHopView, RouteError> {
    match r {
        Ok(hop) => Ok(hop@),
        Err(e) => Err(e),
    }
}

/// A run of `len` padding bytes.
pub fn make_garbage(len: usize) -> (bytes: Vec<u8>)
    ensures
        bytes@ == garbage(len as nat),
{
    let mut bytes: Vec<u8> = Vec::new();
    let mut i: usize = 0;
    while i < len
        invariant
            i <= len,
            bytes@.len() == i,
            forall|j: int| 0 <= j < i ==> bytes@[j] == GARBAGE_BYTE,
        decreases len - i,
    {
        bytes.push(GARBAGE_BYTE);
        i += 1;
    }
    assert(bytes@ =~= garbage(len as nat));
    bytes
}

/// The stops of one segment, as values that can be iterated over.
fn stops_of(segment: &RouteSegment) -> (stops: Vec<(PublicKey, Component)>)
    ensures
        stops_view(stops@) == segment_stops(keys_view(segment.keys@), segment.recipient),
{
    let mut stops: Vec<(PublicKey, Component)> = Vec::new();
    let n: usize = segment.keys.len();
    let mut i: usize = 0;
    while i < n
        invariant
            n == segment.keys@.len(),
            i <= n,
            stops@.len() == i,
            forall|j: int|
                0 <= j < i ==> (#[trigger] stops@[j]).0@ == segment.keys@[j]@ && stops@[j].1
                    == (if j == n - 1 {
                    segment.recipient
                } else {
                    Component::Hopper
                }),
        decreases n - i,
    {
        let component = if i == n - 1 {
            segment.recipient
        } else {
            Component::Hopper
        };
        stops.push((segment.keys[i].clone(), component));
        i += 1;
    }
    assert(stops_view(stops@) =~= segment_stops(keys_view(segment.keys@), segment.recipient));
    stops
}

/// A list of stops as a mathematical value.
pub open spec fn stops_view(stops: Seq<(PublicKey, Component)>) -> Itinerary {
    Seq::new(stops.len(), |i: int| (stops[i].0@, stops[i].1))
}

/// Seals one directive for each stop.
fn seal_hops<C: CryptDE>(
    stops: &Vec<(PublicKey, Component)>,
    cryptde: &C,
    consuming_wallet: &Option<Wallet>,
) -> (r: Option<Vec<CryptData>>)
    ensures
        match r {
            Some(hops) => all_hops_seal::<C>(stops_view(stops@), wallet_view(*consuming_wallet))
                && (Route { hops })@ == sealed_hops::<C>(
                stops_view(stops@),
                wallet_view(*consuming_wallet),
            ),
            None => !all_hops_seal::<C>(stops_view(stops@), wallet_view(*consuming_wallet)),
        },
{
    let ghost plan = stops_view(stops@);
    let ghost wallet = wallet_view(*consuming_wallet);
    let empty_key = PublicKey::new(&[]);
    let mut hops: Vec<CryptData> = Vec::new();
    let n: usize = stops.len();
    let mut i: usize = 0;
    while i < n
        invariant
            n == stops@.len(),
            i <= n,
            hops@.len() == i,
            plan == stops_view(stops@),
            wallet == wallet_view(*consuming_wallet),
            empty_key@ == Seq::<u8>::empty(),
            forall|j: int|
                0 <= j < i ==> (#[trigger] sealed_hop::<C>(plan, wallet, j)) == Ok::<
                    Seq<u8>,
                    CryptdecError,
                >(hops@[j]@),
        decreases n - i,
    {
        let next_key = if i + 1 < n {
            &stops[i + 1].0
        } else {
            &empty_key
        };
        let hop = LiveHop::new(next_key, clone_wallet(consuming_wallet), stops[i].1);
        assert(hop@ == directive(plan, wallet, i as int));
        match hop.encode(&stops[i].0, cryptde) {
            Ok(sealed) => {
                hops.push(sealed);
            },
            Err(_) => {
                assert(!(sealed_hop::<C>(plan, wallet, i as int) is Ok));
                return None;
            },
        }
        i += 1;
    }
    assert((Route { hops })@ =~= sealed_hops::<C>(plan, wallet));
    Some(hops)
}

impl Route {
    /// The route that `one_way` builds.
    pub open spec fn one_way_spec<C: CryptDE>(
        keys: Seq<Seq<u8>>,
        recipient: Component,
        wallet: Option<Seq<char>>,
    ) -> Result<Seq<Seq<u8>>, RouteError> {
        let stops = segment_stops(keys, recipient);
        if keys.len() >= 2 && all_hops_seal::<C>(stops, wallet) {
            Ok(sealed_hops::<C>(stops, wallet))
        } else {
            Err(RouteError::IllegalRoute)
        }
    }

    /// The route that `round_trip` builds for the node with key `origin`.
    pub open spec fn round_trip_spec<C: CryptDE>(
        over: Seq<Seq<u8>>,
        over_recipient: Component,
        back: Seq<Seq<u8>>,
        back_recipient: Component,
        wallet: Option<Seq<char>>,
        return_route_id: u32,
        origin: Seq<u8>,
    ) -> Result<Seq<Seq<u8>>, RouteError> {
        let stops = round_trip_stops(over, over_recipient, back, back_recipient);
        if over.len() >= 2 && back.len() >= 2 && over.last() == back.first() && all_hops_seal::<C>(
            stops,
            wallet,
        ) {
            match encodex_spec::<C, u32>(origin, return_route_id) {
                Ok(id) => Ok(sealed_hops::<C>(stops, wallet).push(id)),
                Err(_) => Err(RouteError::IllegalRoute),
            }
        } else {
            Err(RouteError::IllegalRoute)
        }
    }

    /// What the holder of `cryptde` reads in the top hop of `route`.
    pub open spec fn next_hop_spec<C: CryptDE>(route: Seq<Seq<u8>>, cryptde: &C) -> Result<
        LiveHopView,
        RouteError,
    > {
        if route.len() == 0 {
            Err(RouteError::EmptyRoute)
        } else {
            match decodex_spec::<C, LiveHop>(cryptde, route[0]) {
                Ok(hop) => Ok(hop),
                Err(CryptdecError::SerializationError) => Err(
                    RouteError::HopDeserializationProblem,
                ),
                Err(_) => Err(RouteError::HopDecodeProblem),
            }
        }
    }

    /// The route that the holder of `cryptde` passes on: the top hop is gone
    /// and padding of the same length stands at the end. A route whose top
    /// hop cannot be read stays as it is.
    pub open spec fn shifted_spec<C: CryptDE>(route: Seq<Seq<u8>>, cryptde: &C) -> Seq<Seq<u8>> {
        if Self::next_hop_spec(route, cryptde) is Ok {
            route.drop_first().push(garbage(route[0].len()))
        } else {
            route
        }
    }

    /// Builds the route along `route_segment`: one hop for each node, sealed
    /// for that node, telling it the key of the next.
    pub fn one_way<C: CryptDE>(
        route_segment: RouteSegment,
        cryptde: &C,
        consuming_wallet: Option<Wallet>,
    ) -> (r: Result<Route, RouteError>)
        ensures
            route_view(r) == Self::one_way_spec::<C>(
                keys_view(route_segment.keys@),
                route_segment.recipient,
                wallet_view(consuming_wallet),
            ),
    {
        if route_segment.keys.len() < 2 {
            return Err(RouteError::IllegalRoute);
        }
        let stops = stops_of(&route_segment);
        match seal_hops(&stops, cryptde, &consuming_wallet) {
            Some(hops) => Ok(Route { hops }),
            None => Err(RouteError::IllegalRoute),
        }
    }

    /// Builds the route out along `route_segment_over` and back along
    /// `route_segment_back`. Behind the hops stands the return-route
    /// identifier, sealed for the node that builds the route, which uses it
    /// to match what comes back with what it sent.
    pub fn round_trip<C: CryptDE>(
        route_segment_over: RouteSegment,
        route_segment_back: RouteSegment,
        cryptde: &C,
        consuming_wallet: Option<Wallet>,
        return_route_id: u32,
    ) -> (r: Result<Route, RouteError>)
        ensures
            route_view(r) == Self::round_trip_spec::<C>(
                keys_view(route_segment_over.keys@),
                route_segment_over.recipient,
                keys_view(route_segment_back.keys@),
                route_segment_back.recipient,
                wallet_view(consuming_wallet),
                return_route_id,
                cryptde.public_key_view(),
            ),
    {
        let over_len: usize = route_segment_over.keys.len();
        if over_len < 2 || route_segment_back.keys.len() < 2 {
            return Err(RouteError::IllegalRoute);
        }
        if !route_segment_over.keys[over_len - 1].equals(&route_segment_back.keys[0]) {
            return Err(RouteError::IllegalRoute);
        }
        let mut stops = stops_of(&route_segment_over);
        let mut back_stops = stops_of(&route_segment_back);
        let ghost back_all = stops_view(back_stops@);
        back_stops.remove(0);
        assert(stops_view(back_stops@) =~= back_all.drop_first());
        let ghost over_all = stops_view(stops@);
        stops.append(&mut back_stops);
        assert(stops_view(stops@) =~= over_all + back_all.drop_first());
        match seal_hops(&stops, cryptde, &consuming_wallet) {
            Some(hops) => {
                let mut hops = hops;
                let ghost sealed = (Route { hops })@;
                match encodex(cryptde, &cryptde.public_key(), &return_route_id) {
                    Ok(id) => {
                        hops.push(id);
                        let route = Route { hops };
                        assert(route@ =~= sealed.push(id@));
                        Ok(route)
                    },
                    Err(_) => Err(RouteError::IllegalRoute),
                }
            },
            None => Err(RouteError::IllegalRoute),
        }
    }

    /// Reads the top hop with the key of the node that holds the route. The
    /// route stays as it is.
    pub fn next_hop<C: CryptDE>(&self, cryptde: &C) -> (r: Result<LiveHop, RouteError>)
        ensures
            hop_view(r) == Self::next_hop_spec(self@, cryptde),
    {
        if self.hops.len() == 0 {
            return Err(RouteError::EmptyRoute);
        }
        match LiveHop::decode(cryptde, &self.hops[0]) {
            Ok(hop) => Ok(hop),
            Err(CryptdecError::SerializationError) => Err(RouteError::HopDeserializationProblem),
            Err(_) => Err(RouteError::HopDecodeProblem),
        }
    }

    /// Reads the top hop, takes it off the route, and puts padding of the
    /// same length at the end, so that neither the number of hops nor the
    /// length of any of them tells how far the package has come. When the
    /// top hop cannot be read the route is left untouched.
    pub fn shift<C: CryptDE>(&mut self, cryptde: &C) -> (r: Result<LiveHop, RouteError>)
        ensures
            hop_view(r) == Self::next_hop_spec(old(self)@, cryptde),
            final(self)@ == Self::shifted_spec(old(self)@, cryptde),
            final(self)@.len() == old(self)@.len(),
            r is Ok ==> final(self)@.last() == garbage(old(self)@[0].len()),
    {
        let next_hop = self.next_hop(cryptde)?;
        let top_hop = self.hops.remove(0);
        let padding = CryptData { data: make_garbage(top_hop.len()) };
        self.hops.push(padding);
        assert(self@ =~= old(self)@.drop_first().push(garbage(old(self)@[0].len())));
        Ok(next_hop)
    }
}

} // verus!
