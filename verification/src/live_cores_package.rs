//! The package as it travels between nodes, and the three things a node
//! can do with one: send out one of its own, pass one on, or open one
//! that has arrived.

use vstd::prelude::*;
use vstd::string::StringExecFns;
use crate::cryptde::{decodex, decodex_spec, CryptDE, CryptData, PublicKey};
use crate::hop::{LiveHop, LiveHopView};
use crate::hopper::{
    ExpiredCoresPackage, IncipientCoresPackage, MessageType, MessageTypeView, PackageView,
};
use crate::net::IpAddress;
use crate::route::{Route, RouteError};
use crate::wire::{
    blob, lemma_blob_parsed, lemma_parse_blob, lemma_parse_tag, lemma_tag_parsed, parse_blob,
    parse_tag, put_blob, put_tag, take_blob, take_tag, Wire,
};

verus! {

/// A package between two nodes: the hops still to be read and the payload,
/// which only the last node can open.
#[derive(Debug, PartialEq, Eq)]
pub struct LiveCoresPackage {
    pub route: Route,
    pub payload: CryptData,
}

impl View for LiveCoresPackage {
    type V = PackageView;

    open spec fn view(&self) -> PackageView {
        PackageView { route: self.route@, payload: self.payload@ }
    }
}

impl Clone for LiveCoresPackage {
    fn clone(&self) -> (copy: Self)
        ensures
            copy@ == self@,
    {
        LiveCoresPackage { route: self.route.clone(), payload: self.payload.clone() }
    }
}

/// The byte every package starts with: the head of a list of two.
pub const PACKAGE_MARK: u8 = 0x82;

/// A package travels as a list of two: its route, and its payload as a blob.
impl Wire for LiveCoresPackage {
    open spec fn wire(v: PackageView) -> Seq<u8> {
        seq![PACKAGE_MARK] + Route::wire(v.route) + blob(v.payload)
    }

    open spec fn parse(s: Seq<u8>) -> Option<(PackageView, Seq<u8>)> {
        match parse_tag(s) {
            Some((mark, after_mark)) => if mark == PACKAGE_MARK {
                match Route::parse(after_mark) {
                    Some((route, after_route)) => match parse_blob(after_route) {
                        Some((payload, rest)) => Some((PackageView { route, payload }, rest)),
                        None => None,
                    },
                    None => None,
                }
            } else {
                None
            },
            None => None,
        }
    }

    open spec fn fits(v: PackageView) -> bool {
        Route::fits(v.route) && v.payload.len() <= u64::MAX
    }

    fn put(&self, out: &mut Vec<u8>) {
        put_tag(out, PACKAGE_MARK);
        self.route.put(out);
        put_blob(out, self.payload.as_slice());
        assert(out@ =~= old(out)@ + Self::wire(self@));
    }

    fn take<'a>(input: &'a [u8]) -> (r: Option<(Self, &'a [u8])>) {
        let (mark, after_mark) = take_tag(input)?;
        if mark != PACKAGE_MARK {
            return None;
        }
        let (route, after_route) = Route::take(after_mark)?;
        let (payload, rest) = take_blob(after_route)?;
        Some((LiveCoresPackage { route, payload: CryptData::new(payload) }, rest))
    }

    proof fn lemma_parse_wire(v: PackageView, rest: Seq<u8>) {
        let after_route = blob(v.payload) + rest;
        let after_mark = Route::wire(v.route) + after_route;
        assert(Self::wire(v) + rest =~= seq![PACKAGE_MARK] + after_mark);
        lemma_parse_tag(PACKAGE_MARK, after_mark);
        Route::lemma_parse_wire(v.route, after_route);
        lemma_parse_blob(v.payload, rest);
    }

    proof fn lemma_wire_parsed(s: Seq<u8>) {
        let (v, rest) = Self::parse(s)->Some_0;
        lemma_tag_parsed(s);
        let after_mark = parse_tag(s)->Some_0.1;
        Route::lemma_wire_parsed(after_mark);
        let after_route = Route::parse(after_mark)->Some_0.1;
        lemma_blob_parsed(after_route);
        assert(Self::wire(v) + rest =~= seq![PACKAGE_MARK] + (Route::wire(v.route) + (blob(
            v.payload,
        ) + rest)));
    }
}

/// A package that has arrived, as a mathematical value.
pub struct ExpiredView {
    pub immediate_neighbor_ip: IpAddress,
    pub consuming_wallet: Option<Seq<char>>,
    pub remaining_route: Seq<Seq<u8>>,
    pub payload: MessageTypeView,
    pub payload_len: nat,
}

/// The view of a package that has arrived with a message in it.
pub open spec fn expired_view(package: ExpiredCoresPackage<MessageType>) -> ExpiredView {
    ExpiredView {
        immediate_neighbor_ip: package.immediate_neighbor_ip,
        consuming_wallet: crate::wallet::wallet_view(package.consuming_wallet),
        remaining_route: package.remaining_route@,
        payload: package.payload@,
        payload_len: package.payload_len as nat,
    }
}

/// What passing a package on yields, seen as mathematical values.
pub open spec fn next_live_view(r: Result<(LiveHop, LiveCoresPackage), RouteError>) -> Result<
    (LiveHopView, PackageView),
    RouteError,
> {
    match r {
        Ok((hop, package)) => Ok((hop@, package@)),
        Err(e) => Err(e),
    }
}

/// What sending a package out yields, seen as mathematical values.
pub open spec fn from_incipient_view(r: Result<(LiveCoresPackage, PublicKey), String>) -> Result<
    (PackageView, Seq<u8>),
    Seq<char>,
> {
    match r {
        Ok((package, key)) => Ok((package@, key@)),
        Err(msg) => Err(msg@),
    }
}

/// What opening a package yields, seen as mathematical values.
pub open spec fn to_expired_view(r: Result<ExpiredCoresPackage<MessageType>, String>) -> Result<
    ExpiredView,
    Seq<char>,
> {
    match r {
        Ok(package) => Ok(expired_view(package)),
        Err(msg) => Err(msg@),
    }
}

impl LiveCoresPackage {
    pub fn new(route: Route, payload: CryptData) -> (package: LiveCoresPackage)
        ensures
            package.route == route,
            package.payload == payload,
    {
        LiveCoresPackage { route, payload }
    }

    /// What a relay makes of `package`: the directive in the top hop and the
    /// package to pass on, with the same payload and the route shifted.
    pub open spec fn to_next_live_spec<C: CryptDE>(package: PackageView, cryptde: &C) -> Result<
        (LiveHopView, PackageView),
        RouteError,
    > {
        match Route::next_hop_spec(package.route, cryptde) {
            Ok(hop) => Ok(
                (
                    hop,
                    PackageView {
                        route: Route::shifted_spec(package.route, cryptde),
                        payload: package.payload,
                    },
                ),
            ),
            Err(e) => Err(e),
        }
    }

    /// What the node that made `package` puts on the wire, and the key of
    /// the node it sends it to.
    pub open spec fn from_incipient_spec<C: CryptDE>(package: PackageView, cryptde: &C) -> Result<
        (PackageView, Seq<u8>),
        Seq<char>,
    > {
        match Route::next_hop_spec(package.route, cryptde) {
            Ok(hop) => Ok(
                (
                    PackageView {
                        route: Route::shifted_spec(package.route, cryptde),
                        payload: package.payload,
                    },
                    hop.public_key,
                ),
            ),
            Err(e) => Err("Could not decrypt next hop: "@ + e.name_spec()),
        }
    }

    /// What the exit node finds in `package`. The route is kept whole: it is
    /// the way back.
    pub open spec fn to_expired_spec<C: CryptDE>(
        package: PackageView,
        immediate_neighbor_ip: IpAddress,
        cryptde: &C,
    ) -> Result<ExpiredView, Seq<char>> {
        match Route::next_hop_spec(package.route, cryptde) {
            Ok(hop) => match decodex_spec::<C, MessageType>(cryptde, package.payload) {
                Ok(payload) => Ok(
                    ExpiredView {
                        immediate_neighbor_ip,
                        consuming_wallet: hop.consuming_wallet,
                        remaining_route: package.route,
                        payload,
                        payload_len: package.payload.len(),
                    },
                ),
                Err(e) => Err(e.name_spec()),
            },
            Err(e) => Err(e.name_spec()),
        }
    }

    /// Takes the top hop off the route and hands back what it says together
    /// with the package to pass on. `cryptde` must be that of the node the
    /// top hop is sealed for.
    pub fn to_next_live<C: CryptDE>(self, cryptde: &C) -> (r: Result<
        (LiveHop, LiveCoresPackage),
        RouteError,
    >)
        ensures
            next_live_view(r) == Self::to_next_live_spec(self@, cryptde),
    {
        let mut package = self;
        let next_hop = package.route.shift(cryptde)?;
        let next_live = LiveCoresPackage::new(package.route, package.payload);
        Ok((next_hop, next_live))
    }

    /// Turns a package of this node's own making into the package to send,
    /// and names the node to send it to. `cryptde` must be that of the node
    /// the top hop is sealed for.
    pub fn from_incipient<C: CryptDE>(incipient: IncipientCoresPackage, cryptde: &C) -> (r: Result<
        (LiveCoresPackage, PublicKey),
        String,
    >)
        ensures
            from_incipient_view(r) == Self::from_incipient_spec(incipient@, cryptde),
    {
        let mut route = incipient.route.clone();
        let next_hop = match route.shift(cryptde) {
            Ok(h) => h,
            Err(e) => {
                return Err(String::from_str("Could not decrypt next hop: ").concat(e.name()));
            },
        };
        Ok((LiveCoresPackage::new(route, incipient.payload), next_hop.public_key))
    }

    /// Opens a package at the node its payload is sealed for. The top hop is
    /// read for the consuming wallet but stays on the route.
    pub fn to_expired<C: CryptDE>(self, immediate_neighbor_ip: IpAddress, cryptde: &C) -> (r:
        Result<ExpiredCoresPackage<MessageType>, String>)
        ensures
            to_expired_view(r) == Self::to_expired_spec(self@, immediate_neighbor_ip, cryptde),
    {
        let top_hop = match self.route.next_hop(cryptde) {
            Err(e) => {
                return Err(String::from_str(e.name()));
            },
            Ok(hop) => hop,
        };
        match decodex::<C, MessageType>(cryptde, &self.payload) {
            Ok(decoded_payload) => {
                let payload_len: usize = self.payload.len();
                Ok(
                    ExpiredCoresPackage::new(
                        immediate_neighbor_ip,
                        top_hop.consuming_wallet,
                        self.route,
                        decoded_payload,
                        payload_len,
                    ),
                )
            },
            Err(e) => Err(String::from_str(e.name())),
        }
    }
}

} // verus!
