//! The packages a node hands to, and takes from, its hopper.

use vstd::prelude::*;
use vstd::slice::slice_to_vec;
use vstd::string::StringExecFns;
use crate::cryptde::{encodex, encodex_spec, CryptDE, CryptData, PublicKey};
use crate::net::IpAddress;
use crate::route::Route;
use crate::stream::{
    ClientRequestPayload, ClientRequestPayloadView, ClientResponsePayload,
    ClientResponsePayloadView, DnsResolveFailure, DnsResolveFailureView,
};
use crate::wallet::Wallet;
use crate::wire::{
    blob, lemma_blob_parsed, lemma_parse_blob, lemma_parse_tag, lemma_tag_parsed, parse_blob,
    parse_tag, put_blob, put_tag, take_blob, take_tag, Wire,
};

verus! {

/// Everything a package can carry.
#[derive(Debug, PartialEq, Eq)]
pub enum MessageType {
    ClientRequest(ClientRequestPayload),
    ClientResponse(ClientResponsePayload),
    DnsResolveFailed(DnsResolveFailure),
    /// Neighborhood talk, carried but not looked into here.
    Gossip(Vec<u8>),
}

/// A message as a mathematical value.
pub enum MessageTypeView {
    ClientRequest(ClientRequestPayloadView),
    ClientResponse(ClientResponsePayloadView),
    DnsResolveFailed(DnsResolveFailureView),
    Gossip(Seq<u8>),
}

impl View for MessageType {
    type V = MessageTypeView;

    open spec fn view(&self) -> MessageTypeView {
        match self {
            MessageType::ClientRequest(p) => MessageTypeView::ClientRequest(p@),
            MessageType::ClientResponse(p) => MessageTypeView::ClientResponse(p@),
            MessageType::DnsResolveFailed(p) => MessageTypeView::DnsResolveFailed(p@),
            MessageType::Gossip(bytes) => MessageTypeView::Gossip(bytes@),
        }
    }
}

impl Clone for MessageType {
    fn clone(&self) -> (copy: Self)
        ensures
            copy@ == self@,
    {
        match self {
            MessageType::ClientRequest(p) => MessageType::ClientRequest(p.clone()),
            MessageType::ClientResponse(p) => MessageType::ClientResponse(p.clone()),
            MessageType::DnsResolveFailed(p) => MessageType::DnsResolveFailed(p.clone()),
            MessageType::Gossip(bytes) => MessageType::Gossip(slice_to_vec(bytes.as_slice())),
        }
    }
}

/// The byte every message starts with: the head of a list of two.
pub const MESSAGE_MARK: u8 = 0x82;

/// The bytes that name the variants of a message.
pub const CLIENT_REQUEST_TAG: u8 = 0;

pub const CLIENT_RESPONSE_TAG: u8 = 1;

pub const DNS_RESOLVE_FAILED_TAG: u8 = 2;

pub const GOSSIP_TAG: u8 = 3;

/// The tag of a message's variant followed by what the message carries.
pub open spec fn variant(v: MessageTypeView) -> Seq<u8> {
    match v {
        MessageTypeView::ClientRequest(p) => seq![CLIENT_REQUEST_TAG] + ClientRequestPayload::wire(
            p,
        ),
        MessageTypeView::ClientResponse(p) => seq![CLIENT_RESPONSE_TAG]
            + ClientResponsePayload::wire(p),
        MessageTypeView::DnsResolveFailed(p) => seq![DNS_RESOLVE_FAILED_TAG]
            + DnsResolveFailure::wire(p),
        MessageTypeView::Gossip(bytes) => seq![GOSSIP_TAG] + blob(bytes),
    }
}

/// The tagged variant at the head of `s` and what follows it.
pub open spec fn parse_variant(s: Seq<u8>) -> Option<(MessageTypeView, Seq<u8>)> {
    match parse_tag(s) {
        Some((tag, body)) => if tag == CLIENT_REQUEST_TAG {
            match ClientRequestPayload::parse(body) {
                Some((p, rest)) => Some((MessageTypeView::ClientRequest(p), rest)),
                None => None,
            }
        } else if tag == CLIENT_RESPONSE_TAG {
            match ClientResponsePayload::parse(body) {
                Some((p, rest)) => Some((MessageTypeView::ClientResponse(p), rest)),
                None => None,
            }
        } else if tag == DNS_RESOLVE_FAILED_TAG {
            match DnsResolveFailure::parse(body) {
                Some((p, rest)) => Some((MessageTypeView::DnsResolveFailed(p), rest)),
                None => None,
            }
        } else if tag == GOSSIP_TAG {
            match parse_blob(body) {
                Some((bytes, rest)) => Some((MessageTypeView::Gossip(bytes), rest)),
                None => None,
            }
        } else {
            None
        },
        None => None,
    }
}

/// A tagged variant is read back from its own bytes, whatever follows them.
pub proof fn lemma_parse_variant(v: MessageTypeView, rest: Seq<u8>)
    requires
        MessageType::fits(v),
    ensures
        parse_variant(variant(v) + rest) == Some((v, rest)),
{
    match v {
        MessageTypeView::ClientRequest(p) => {
            let body = ClientRequestPayload::wire(p) + rest;
            assert(variant(v) + rest =~= seq![CLIENT_REQUEST_TAG] + body);
            lemma_parse_tag(CLIENT_REQUEST_TAG, body);
            ClientRequestPayload::lemma_parse_wire(p, rest);
        },
        MessageTypeView::ClientResponse(p) => {
            let body = ClientResponsePayload::wire(p) + rest;
            assert(variant(v) + rest =~= seq![CLIENT_RESPONSE_TAG] + body);
            lemma_parse_tag(CLIENT_RESPONSE_TAG, body);
            ClientResponsePayload::lemma_parse_wire(p, rest);
        },
        MessageTypeView::DnsResolveFailed(p) => {
            let body = DnsResolveFailure::wire(p) + rest;
            assert(variant(v) + rest =~= seq![DNS_RESOLVE_FAILED_TAG] + body);
            lemma_parse_tag(DNS_RESOLVE_FAILED_TAG, body);
            DnsResolveFailure::lemma_parse_wire(p, rest);
        },
        MessageTypeView::Gossip(bytes) => {
            let body = blob(bytes) + rest;
            assert(variant(v) + rest =~= seq![GOSSIP_TAG] + body);
            lemma_parse_tag(GOSSIP_TAG, body);
            lemma_parse_blob(bytes, rest);
        },
    }
}

/// Only the bytes of a tagged variant are read as that variant.
pub proof fn lemma_variant_parsed(s: Seq<u8>)
    requires
        parse_variant(s) is Some,
    ensures
        variant(parse_variant(s)->Some_0.0) + parse_variant(s)->Some_0.1 == s,
        MessageType::fits(parse_variant(s)->Some_0.0),
{
    let (v, rest) = parse_variant(s)->Some_0;
    lemma_tag_parsed(s);
    let (tag, body) = parse_tag(s)->Some_0;
    if tag == CLIENT_REQUEST_TAG {
        ClientRequestPayload::lemma_wire_parsed(body);
        let p = ClientRequestPayload::parse(body)->Some_0.0;
        assert(variant(v) + rest =~= seq![tag] + (ClientRequestPayload::wire(p) + rest));
    } else if tag == CLIENT_RESPONSE_TAG {
        ClientResponsePayload::lemma_wire_parsed(body);
        let p = ClientResponsePayload::parse(body)->Some_0.0;
        assert(variant(v) + rest =~= seq![tag] + (ClientResponsePayload::wire(p) + rest));
    } else if tag == DNS_RESOLVE_FAILED_TAG {
        DnsResolveFailure::lemma_wire_parsed(body);
        let p = DnsResolveFailure::parse(body)->Some_0.0;
        assert(variant(v) + rest =~= seq![tag] + (DnsResolveFailure::wire(p) + rest));
    } else {
        lemma_blob_parsed(body);
        let bytes = parse_blob(body)->Some_0.0;
        assert(variant(v) + rest =~= seq![tag] + (blob(bytes) + rest));
    }
}

/// A message travels as a list of two: the tag of its variant and what it
/// carries.
impl Wire for MessageType {
    open spec fn wire(v: MessageTypeView) -> Seq<u8> {
        seq![MESSAGE_MARK] + variant(v)
    }

    open spec fn parse(s: Seq<u8>) -> Option<(MessageTypeView, Seq<u8>)> {
        match parse_tag(s) {
            Some((mark, after_mark)) => if mark == MESSAGE_MARK {
                parse_variant(after_mark)
            } else {
                None
            },
            None => None,
        }
    }

    open spec fn fits(v: MessageTypeView) -> bool {
        match v {
            MessageTypeView::ClientRequest(p) => ClientRequestPayload::fits(p),
            MessageTypeView::ClientResponse(p) => ClientResponsePayload::fits(p),
            MessageTypeView::DnsResolveFailed(p) => DnsResolveFailure::fits(p),
            MessageTypeView::Gossip(bytes) => bytes.len() <= u64::MAX,
        }
    }

    fn put(&self, out: &mut Vec<u8>) {
        put_tag(out, MESSAGE_MARK);
        let ghost marked = out@;
        match self {
            MessageType::ClientRequest(p) => {
                put_tag(out, CLIENT_REQUEST_TAG);
                p.put(out);
            },
            MessageType::ClientResponse(p) => {
                put_tag(out, CLIENT_RESPONSE_TAG);
                p.put(out);
            },
            MessageType::DnsResolveFailed(p) => {
                put_tag(out, DNS_RESOLVE_FAILED_TAG);
                p.put(out);
            },
            MessageType::Gossip(bytes) => {
                put_tag(out, GOSSIP_TAG);
                put_blob(out, bytes.as_slice());
            },
        }
        assert(out@ =~= marked + variant(self@));
        assert(out@ =~= old(out)@ + Self::wire(self@));
    }

    fn take<'a>(input: &'a [u8]) -> (r: Option<(Self, &'a [u8])>) {
        let (mark, after_mark) = take_tag(input)?;
        if mark != MESSAGE_MARK {
            return None;
        }
        let (tag, body) = take_tag(after_mark)?;
        if tag == CLIENT_REQUEST_TAG {
            let (p, rest) = ClientRequestPayload::take(body)?;
            Some((MessageType::ClientRequest(p), rest))
        } else if tag == CLIENT_RESPONSE_TAG {
            let (p, rest) = ClientResponsePayload::take(body)?;
            Some((MessageType::ClientResponse(p), rest))
        } else if tag == DNS_RESOLVE_FAILED_TAG {
            let (p, rest) = DnsResolveFailure::take(body)?;
            Some((MessageType::DnsResolveFailed(p), rest))
        } else if tag == GOSSIP_TAG {
            let (bytes, rest) = take_blob(body)?;
            Some((MessageType::Gossip(slice_to_vec(bytes)), rest))
        } else {
            None
        }
    }

    proof fn lemma_parse_wire(v: MessageTypeView, rest: Seq<u8>) {
        let tagged = variant(v) + rest;
        assert(Self::wire(v) + rest =~= seq![MESSAGE_MARK] + tagged);
        lemma_parse_tag(MESSAGE_MARK, tagged);
        lemma_parse_variant(v, rest);
    }

    proof fn lemma_wire_parsed(s: Seq<u8>) {
        let (v, rest) = Self::parse(s)->Some_0;
        lemma_tag_parsed(s);
        let tagged = parse_tag(s)->Some_0.1;
        lemma_variant_parsed(tagged);
        assert(Self::wire(v) + rest =~= seq![MESSAGE_MARK] + (variant(v) + rest));
    }
}

/// A package on its way out of the node that made it: the route it is to
/// take, and the payload already sealed for the node at the far end.
#[derive(Debug, PartialEq, Eq)]
pub struct IncipientCoresPackage {
    pub route: Route,
    pub payload: CryptData,
}

/// A package as a mathematical value: its hops and its sealed payload.
pub struct PackageView {
    pub route: Seq<Seq<u8>>,
    pub payload: Seq<u8>,
}

impl View for IncipientCoresPackage {
    type V = PackageView;

    open spec fn view(&self) -> PackageView {
        PackageView { route: self.route@, payload: self.payload@ }
    }
}

impl Clone for IncipientCoresPackage {
    fn clone(&self) -> (copy: Self)
        ensures
            copy@ == self@,
    {
        IncipientCoresPackage { route: self.route.clone(), payload: self.payload.clone() }
    }
}

/// What making a package yields, seen as mathematical values.
pub open spec fn incipient_view(r: Result<IncipientCoresPackage, String>) -> Result<
    PackageView,
    Seq<char>,
> {
    match r {
        Ok(p) => Ok(p@),
        Err(msg) => Err(msg@),
    }
}

impl IncipientCoresPackage {
    /// The package that `new` makes, or the message it fails with.
    pub open spec fn new_spec<C: CryptDE>(
        route: Seq<Seq<u8>>,
        payload: MessageTypeView,
        payload_destination_key: Seq<u8>,
    ) -> Result<PackageView, Seq<char>> {
        match encodex_spec::<C, MessageType>(payload_destination_key, payload) {
            Ok(sealed) => Ok(PackageView { route, payload: sealed }),
            Err(e) => Err("Could not encrypt payload: "@ + e.name_spec()),
        }
    }

    /// Seals `payload` for the node that holds `payload_destination_key` and
    /// puts it on `route`.
    pub fn new<C: CryptDE>(
        cryptde: &C,
        route: Route,
        payload: MessageType,
        payload_destination_key: &PublicKey,
    ) -> (r: Result<IncipientCoresPackage, String>)
        ensures
            incipient_view(r) == Self::new_spec::<C>(route@, payload@, payload_destination_key@),
    {
        match encodex(cryptde, payload_destination_key, &payload) {
            Ok(sealed) => Ok(IncipientCoresPackage { route, payload: sealed }),
            Err(e) => Err(String::from_str("Could not encrypt payload: ").concat(e.name())),
        }
    }
}

/// A package that has reached the node its payload was sealed for.
#[derive(Debug, PartialEq, Eq)]
pub struct ExpiredCoresPackage<T> {
    /// The neighbor the package came from.
    pub immediate_neighbor_ip: IpAddress,
    pub consuming_wallet: Option<Wallet>,
    /// The hops that were left when the package arrived: the way back.
    pub remaining_route: Route,
    pub payload: T,
    /// The length of the payload while it was still sealed.
    pub payload_len: usize,
}

impl<T> ExpiredCoresPackage<T> {
    pub fn new(
        immediate_neighbor_ip: IpAddress,
        consuming_wallet: Option<Wallet>,
        remaining_route: Route,
        payload: T,
        payload_len: usize,
    ) -> (package: ExpiredCoresPackage<T>)
        ensures
            package.immediate_neighbor_ip == immediate_neighbor_ip,
            package.consuming_wallet == consuming_wallet,
            package.remaining_route == remaining_route,
            package.payload == payload,
            package.payload_len == payload_len,
    {
        ExpiredCoresPackage {
            immediate_neighbor_ip,
            consuming_wallet,
            remaining_route,
            payload,
            payload_len,
        }
    }
}

} // verus!
