//! What travels between a client and the origin server it talks to: the
//! key that names a stream, the numbered chunks of data, and the payloads
//! that carry them across the network.

use vstd::prelude::*;
use vstd::slice::slice_to_vec;
use crate::cryptde::{same_bytes, PublicKey};
use crate::net::SocketAddress;
use crate::wire::{
    blob, flag, lemma_blob_parsed, lemma_flag_parsed, lemma_four_parts, lemma_optional_text_parsed,
    lemma_parse_blob, lemma_parse_flag, lemma_parse_optional_text, lemma_parse_tag,
    lemma_parse_word, lemma_tag_parsed, lemma_word_parsed, optional_text, optional_text_fits,
    parse_blob, parse_flag, parse_optional_text, parse_tag, parse_word, put_blob, put_flag,
    put_optional_text, put_tag, put_word, take_blob, take_flag, take_optional_text, take_tag,
    take_word, word, Wire,
};

verus! {

/// The name of one client session. It ties a request to the connection
/// opened for it and to everything the server sends back.
#[derive(Debug, PartialEq, Eq)]
pub struct StreamKey {
    pub hash: Vec<u8>,
}

impl View for StreamKey {
    type V = Seq<u8>;

    open spec fn view(&self) -> Seq<u8> {
        self.hash@
    }
}

impl Clone for StreamKey {
    fn clone(&self) -> (copy: Self)
        ensures
            copy@ == self@,
    {
        StreamKey { hash: slice_to_vec(self.hash.as_slice()) }
    }
}

impl StreamKey {
    pub fn new(hash: &[u8]) -> (key: StreamKey)
        ensures
            key@ == hash@,
    {
        StreamKey { hash: slice_to_vec(hash) }
    }

    /// Two stream keys are equal exactly when their bytes are.
    pub fn equals(&self, other: &StreamKey) -> (same: bool)
        ensures
            same == (self@ == other@),
    {
        same_bytes(self.hash.as_slice(), other.hash.as_slice())
    }
}

impl Wire for StreamKey {
    open spec fn wire(v: Seq<u8>) -> Seq<u8> {
        blob(v)
    }

    open spec fn parse(s: Seq<u8>) -> Option<(Seq<u8>, Seq<u8>)> {
        parse_blob(s)
    }

    open spec fn fits(v: Seq<u8>) -> bool {
        v.len() <= u64::MAX
    }

    fn put(&self, out: &mut Vec<u8>) {
        put_blob(out, self.hash.as_slice());
    }

    fn take<'a>(input: &'a [u8]) -> (r: Option<(Self, &'a [u8])>) {
        let (hash, rest) = take_blob(input)?;
        Some((StreamKey::new(hash), rest))
    }

    proof fn lemma_parse_wire(v: Seq<u8>, rest: Seq<u8>) {
        lemma_parse_blob(v, rest);
    }

    proof fn lemma_wire_parsed(s: Seq<u8>) {
        lemma_blob_parsed(s);
    }
}

/// One chunk of a stream, with its place in the order of chunks.
#[derive(Debug, PartialEq, Eq)]
pub struct SequencedPacket {
    pub data: Vec<u8>,
    pub sequence_number: u64,
    /// Whether the stream ends with this chunk.
    pub last_data: bool,
}

/// A chunk as a mathematical value.
pub struct SequencedPacketView {
    pub data: Seq<u8>,
    pub sequence_number: u64,
    pub last_data: bool,
}

impl View for SequencedPacket {
    type V = SequencedPacketView;

    open spec fn view(&self) -> SequencedPacketView {
        SequencedPacketView {
            data: self.data@,
            sequence_number: self.sequence_number,
            last_data: self.last_data,
        }
    }
}

impl Clone for SequencedPacket {
    fn clone(&self) -> (copy: Self)
        ensures
            copy@ == self@,
    {
        SequencedPacket {
            data: slice_to_vec(self.data.as_slice()),
            sequence_number: self.sequence_number,
            last_data: self.last_data,
        }
    }
}

impl SequencedPacket {
    pub fn new(data: Vec<u8>, sequence_number: u64, last_data: bool) -> (packet: SequencedPacket)
        ensures
            packet@ == (SequencedPacketView { data: data@, sequence_number, last_data }),
    {
        SequencedPacket { data, sequence_number, last_data }
    }
}

/// The byte every chunk starts with: the head of a list of three.
pub const PACKET_MARK: u8 = 0x83;

/// A chunk travels as a list of three: its data as a blob, its number as a
/// word, and the flag that says whether it is the last.
impl Wire for SequencedPacket {
    open spec fn wire(v: SequencedPacketView) -> Seq<u8> {
        seq![PACKET_MARK] + blob(v.data) + word(v.sequence_number) + flag(v.last_data)
    }

    open spec fn parse(s: Seq<u8>) -> Option<(SequencedPacketView, Seq<u8>)> {
        match parse_tag(s) {
            Some((mark, after_mark)) => if mark == PACKET_MARK {
                match parse_blob(after_mark) {
                    Some((data, after_data)) => match parse_word(after_data) {
                        Some((sequence_number, after_number)) => match parse_flag(after_number) {
                            Some((last_data, rest)) => Some(
                                (SequencedPacketView { data, sequence_number, last_data }, rest),
                            ),
                            None => None,
                        },
                        None => None,
                    },
                    None => None,
                }
            } else {
                None
            },
            None => None,
        }
    }

    open spec fn fits(v: SequencedPacketView) -> bool {
        v.data.len() <= u64::MAX
    }

    fn put(&self, out: &mut Vec<u8>) {
        put_tag(out, PACKET_MARK);
        put_blob(out, self.data.as_slice());
        put_word(out, self.sequence_number);
        put_flag(out, self.last_data);
        assert(out@ =~= old(out)@ + Self::wire(self@));
    }

    fn take<'a>(input: &'a [u8]) -> (r: Option<(Self, &'a [u8])>) {
        let (mark, after_mark) = take_tag(input)?;
        if mark != PACKET_MARK {
            return None;
        }
        let (data, after_data) = take_blob(after_mark)?;
        let (sequence_number, after_number) = take_word(after_data)?;
        let (last_data, rest) = take_flag(after_number)?;
        Some((SequencedPacket { data: slice_to_vec(data), sequence_number, last_data }, rest))
    }

    proof fn lemma_parse_wire(v: SequencedPacketView, rest: Seq<u8>) {
        let after_number = flag(v.last_data) + rest;
        let after_data = word(v.sequence_number) + after_number;
        let after_mark = blob(v.data) + after_data;
        assert(Self::wire(v) + rest =~= seq![PACKET_MARK] + after_mark);
        lemma_parse_tag(PACKET_MARK, after_mark);
        lemma_parse_blob(v.data, after_data);
        lemma_parse_word(v.sequence_number, after_number);
        lemma_parse_flag(v.last_data, rest);
    }

    proof fn lemma_wire_parsed(s: Seq<u8>) {
        let (v, rest) = Self::parse(s)->Some_0;
        lemma_tag_parsed(s);
        let after_mark = parse_tag(s)->Some_0.1;
        lemma_blob_parsed(after_mark);
        let after_data = parse_blob(after_mark)->Some_0.1;
        lemma_word_parsed(after_data);
        let after_number = parse_word(after_data)->Some_0.1;
        lemma_flag_parsed(after_number);
        assert(Self::wire(v) + rest =~= seq![PACKET_MARK] + (blob(v.data) + (word(
            v.sequence_number,
        ) + (flag(v.last_data) + rest))));
    }
}

/// The protocol the client speaks to the origin server.
#[derive(Debug, Clone, Copy, PartialEq, Eq, Structural)]
pub enum ProxyProtocol {
    HTTP,
    TLS,
}

impl ProxyProtocol {
    /// The byte that names this protocol on the wire.
    pub open spec fn tag_spec(self) -> u8 {
        match self {
            ProxyProtocol::HTTP => 0,
            ProxyProtocol::TLS => 1,
        }
    }

    /// The protocol that a byte names, if it names one.
    pub open spec fn from_tag_spec(tag: u8) -> Option<ProxyProtocol> {
        if tag == 0 {
            Some(ProxyProtocol::HTTP)
        } else if tag == 1 {
            Some(ProxyProtocol::TLS)
        } else {
            None
        }
    }

    pub fn tag(self) -> (t: u8)
        ensures
            t == self.tag_spec(),
    {
        match self {
            ProxyProtocol::HTTP => 0,
            ProxyProtocol::TLS => 1,
        }
    }

    pub fn from_tag(tag: u8) -> (p: Option<ProxyProtocol>)
        ensures
            p == Self::from_tag_spec(tag),
    {
        if tag == 0 {
            Some(ProxyProtocol::HTTP)
        } else if tag == 1 {
            Some(ProxyProtocol::TLS)
        } else {
            None
        }
    }
}

/// The view of a host name that may be absent.
pub open spec fn hostname_view(name: Option<String>) -> Option<Seq<char>> {
    match name {
        Some(n) => Some(n@),
        None => None,
    }
}

/// A chunk of a client's request on its way to the exit node.
#[derive(Debug, PartialEq, Eq)]
pub struct ClientRequestPayload {
    pub stream_key: StreamKey,
    pub sequenced_packet: SequencedPacket,
    pub target_hostname: Option<String>,
    pub target_port: u16,
    pub protocol: ProxyProtocol,
    /// The node the answers are to be sealed for.
    pub originator_public_key: PublicKey,
}

/// A request payload as a mathematical value.
pub struct ClientRequestPayloadView {
    pub stream_key: Seq<u8>,
    pub sequenced_packet: SequencedPacketView,
    pub target_hostname: Option<Seq<char>>,
    pub target_port: u16,
    pub protocol: ProxyProtocol,
    pub originator_public_key: Seq<u8>,
}

impl View for ClientRequestPayload {
    type V = ClientRequestPayloadView;

    open spec fn view(&self) -> ClientRequestPayloadView {
        ClientRequestPayloadView {
            stream_key: self.stream_key@,
            sequenced_packet: self.sequenced_packet@,
            target_hostname: hostname_view(self.target_hostname),
            target_port: self.target_port,
            protocol: self.protocol,
            originator_public_key: self.originator_public_key@,
        }
    }
}

impl Clone for ClientRequestPayload {
    fn clone(&self) -> (copy: Self)
        ensures
            copy@ == self@,
    {
        ClientRequestPayload {
            stream_key: self.stream_key.clone(),
            sequenced_packet: self.sequenced_packet.clone(),
            target_hostname: match &self.target_hostname {
                Some(n) => Some(n.clone()),
                None => None,
            },
            target_port: self.target_port,
            protocol: self.protocol,
            originator_public_key: self.originator_public_key.clone(),
        }
    }
}

/// The bytes that say where a request is to go: the host name if there is
/// one, the port as a word, and the tag of the protocol.
pub open spec fn target(hostname: Option<Seq<char>>, port: u16, protocol: ProxyProtocol) -> Seq<
    u8,
> {
    optional_text(hostname) + word(port as u64) + seq![protocol.tag_spec()]
}

/// The target at the head of `s` and what follows it.
pub open spec fn parse_target(s: Seq<u8>) -> Option<
    ((Option<Seq<char>>, u16, ProxyProtocol), Seq<u8>),
> {
    match parse_optional_text(s) {
        Some((hostname, after_name)) => match parse_word(after_name) {
            Some((port, after_port)) => match parse_tag(after_port) {
                Some((tag, rest)) => match ProxyProtocol::from_tag_spec(tag) {
                    Some(protocol) => if port <= u16::MAX {
                        Some(((hostname, port as u16, protocol), rest))
                    } else {
                        None
                    },
                    None => None,
                },
                None => None,
            },
            None => None,
        },
        None => None,
    }
}

/// A target is read back from its own bytes, whatever follows them.
pub proof fn lemma_parse_target(
    hostname: Option<Seq<char>>,
    port: u16,
    protocol: ProxyProtocol,
    rest: Seq<u8>,
)
    requires
        optional_text_fits(hostname),
    ensures
        parse_target(target(hostname, port, protocol) + rest) == Some(
            ((hostname, port, protocol), rest),
        ),
{
    let after_port = seq![protocol.tag_spec()] + rest;
    let after_name = word(port as u64) + after_port;
    assert(target(hostname, port, protocol) + rest =~= optional_text(hostname) + after_name);
    lemma_parse_optional_text(hostname, after_name);
    lemma_parse_word(port as u64, after_port);
    lemma_parse_tag(protocol.tag_spec(), rest);
}

/// Only the bytes of a target are read as that target.
pub proof fn lemma_target_parsed(s: Seq<u8>)
    requires
        parse_target(s) is Some,
    ensures
        ({
            let ((hostname, port, protocol), rest) = parse_target(s)->Some_0;
            target(hostname, port, protocol) + rest == s && optional_text_fits(hostname)
        }),
{
    let ((hostname, port, protocol), rest) = parse_target(s)->Some_0;
    lemma_optional_text_parsed(s);
    let after_name = parse_optional_text(s)->Some_0.1;
    lemma_word_parsed(after_name);
    let after_port = parse_word(after_name)->Some_0.1;
    lemma_tag_parsed(after_port);
    assert(target(hostname, port, protocol) + rest =~= optional_text(hostname) + (word(
        port as u64,
    ) + (seq![protocol.tag_spec()] + rest)));
}

/// The byte every request starts with: the head of a list of six.
pub const REQUEST_MARK: u8 = 0x86;

/// The items of a request behind its mark: stream key, chunk, target, and
/// the key of the originator as a blob.
pub open spec fn request_items(v: ClientRequestPayloadView) -> Seq<u8> {
    StreamKey::wire(v.stream_key) + SequencedPacket::wire(v.sequenced_packet) + target(
        v.target_hostname,
        v.target_port,
        v.protocol,
    ) + blob(v.originator_public_key)
}

/// The items of a request at the head of `s` and what follows them.
pub open spec fn parse_request_items(s: Seq<u8>) -> Option<(ClientRequestPayloadView, Seq<u8>)> {
    match StreamKey::parse(s) {
        Some((stream_key, after_key)) => match SequencedPacket::parse(after_key) {
            Some((sequenced_packet, after_packet)) => match parse_target(after_packet) {
                Some(((target_hostname, target_port, protocol), after_target)) => match parse_blob(
                    after_target,
                ) {
                    Some((originator_public_key, rest)) => Some(
                        (
                            ClientRequestPayloadView {
                                stream_key,
                                sequenced_packet,
                                target_hostname,
                                target_port,
                                protocol,
                                originator_public_key,
                            },
                            rest,
                        ),
                    ),
                    None => None,
                },
                None => None,
            },
            None => None,
        },
        None => None,
    }
}

/// The items of a request are read back from their own bytes, whatever
/// follows them.
pub proof fn lemma_parse_request_items(v: ClientRequestPayloadView, rest: Seq<u8>)
    requires
        ClientRequestPayload::fits(v),
    ensures
        parse_request_items(request_items(v) + rest) == Some((v, rest)),
{
    let after_target = blob(v.originator_public_key) + rest;
    let after_packet = target(v.target_hostname, v.target_port, v.protocol) + after_target;
    let after_key = SequencedPacket::wire(v.sequenced_packet) + after_packet;
    assert(request_items(v) + rest =~= StreamKey::wire(v.stream_key) + after_key);
    StreamKey::lemma_parse_wire(v.stream_key, after_key);
    SequencedPacket::lemma_parse_wire(v.sequenced_packet, after_packet);
    lemma_parse_target(v.target_hostname, v.target_port, v.protocol, after_target);
    lemma_parse_blob(v.originator_public_key, rest);
}

/// Only the bytes of the items of a request are read as those items.
pub proof fn lemma_request_items_parsed(s: Seq<u8>)
    requires
        parse_request_items(s) is Some,
    ensures
        request_items(parse_request_items(s)->Some_0.0) + parse_request_items(s)->Some_0.1 == s,
        ClientRequestPayload::fits(parse_request_items(s)->Some_0.0),
{
    let (v, rest) = parse_request_items(s)->Some_0;
    let after_key = StreamKey::parse(s)->Some_0.1;
    let after_packet = SequencedPacket::parse(after_key)->Some_0.1;
    let after_target = parse_target(after_packet)->Some_0.1;
    let key = StreamKey::wire(v.stream_key);
    let packet = SequencedPacket::wire(v.sequenced_packet);
    let aim = target(v.target_hostname, v.target_port, v.protocol);
    let originator = blob(v.originator_public_key);
    assert(key + after_key == s && StreamKey::fits(v.stream_key)) by {
        StreamKey::lemma_wire_parsed(s);
    }
    assert(packet + after_packet == after_key && SequencedPacket::fits(v.sequenced_packet)) by {
        SequencedPacket::lemma_wire_parsed(after_key);
    }
    assert(aim + after_target == after_packet && optional_text_fits(v.target_hostname)) by {
        lemma_target_parsed(after_packet);
    }
    assert(originator + rest == after_target && v.originator_public_key.len() <= u64::MAX) by {
        lemma_blob_parsed(after_target);
    }
    lemma_four_parts(key, packet, aim, originator, rest);
}

/// A request travels as a list of six: its stream key, its chunk, the host
/// name, the port, the protocol, and the key of its originator.
impl Wire for ClientRequestPayload {
    open spec fn wire(v: ClientRequestPayloadView) -> Seq<u8> {
        seq![REQUEST_MARK] + request_items(v)
    }

    open spec fn parse(s: Seq<u8>) -> Option<(ClientRequestPayloadView, Seq<u8>)> {
        match parse_tag(s) {
            Some((mark, after_mark)) => if mark == REQUEST_MARK {
                parse_request_items(after_mark)
            } else {
                None
            },
            None => None,
        }
    }

    open spec fn fits(v: ClientRequestPayloadView) -> bool {
        &&& StreamKey::fits(v.stream_key)
        &&& SequencedPacket::fits(v.sequenced_packet)
        &&& optional_text_fits(v.target_hostname)
        &&& v.originator_public_key.len() <= u64::MAX
    }

    fn put(&self, out: &mut Vec<u8>) {
        put_tag(out, REQUEST_MARK);
        let ghost marked = out@;
        self.stream_key.put(out);
        self.sequenced_packet.put(out);
        match &self.target_hostname {
            Some(n) => put_optional_text(out, Some(n.as_str())),
            None => put_optional_text(out, None),
        }
        put_word(out, self.target_port as u64);
        put_tag(out, self.protocol.tag());
        put_blob(out, self.originator_public_key.as_slice());
        assert(out@ =~= marked + request_items(self@));
        assert(out@ =~= old(out)@ + Self::wire(self@));
    }

    fn take<'a>(input: &'a [u8]) -> (r: Option<(Self, &'a [u8])>) {
        let (mark, after_mark) = take_tag(input)?;
        if mark != REQUEST_MARK {
            return None;
        }
        let (stream_key, after_key) = StreamKey::take(after_mark)?;
        let (sequenced_packet, after_packet) = SequencedPacket::take(after_key)?;
        let (target_hostname, after_name) = take_optional_text(after_packet)?;
        let (port, after_port) = take_word(after_name)?;
        let (tag, after_target) = take_tag(after_port)?;
        let protocol = ProxyProtocol::from_tag(tag)?;
        if port > u16::MAX as u64 {
            return None;
        }
        let (key, rest) = take_blob(after_target)?;
        Some(
            (
                ClientRequestPayload {
                    stream_key,
                    sequenced_packet,
                    target_hostname,
                    target_port: port as u16,
                    protocol,
                    originator_public_key: PublicKey::new(key),
                },
                rest,
            ),
        )
    }

    proof fn lemma_parse_wire(v: ClientRequestPayloadView, rest: Seq<u8>) {
        let items = request_items(v) + rest;
        assert(Self::wire(v) + rest =~= seq![REQUEST_MARK] + items);
        lemma_parse_tag(REQUEST_MARK, items);
        lemma_parse_request_items(v, rest);
    }

    proof fn lemma_wire_parsed(s: Seq<u8>) {
        let (v, rest) = Self::parse(s)->Some_0;
        lemma_tag_parsed(s);
        let items = parse_tag(s)->Some_0.1;
        lemma_request_items_parsed(items);
        assert(Self::wire(v) + rest =~= seq![REQUEST_MARK] + (request_items(v) + rest));
    }
}

/// A chunk of the server's answer on its way back to the client.
#[derive(Debug, PartialEq, Eq)]
pub struct ClientResponsePayload {
    pub stream_key: StreamKey,
    pub sequenced_packet: SequencedPacket,
}

/// A response payload as a mathematical value.
pub struct ClientResponsePayloadView {
    pub stream_key: Seq<u8>,
    pub sequenced_packet: SequencedPacketView,
}

impl View for ClientResponsePayload {
    type V = ClientResponsePayloadView;

    open spec fn view(&self) -> ClientResponsePayloadView {
        ClientResponsePayloadView {
            stream_key: self.stream_key@,
            sequenced_packet: self.sequenced_packet@,
        }
    }
}

impl Clone for ClientResponsePayload {
    fn clone(&self) -> (copy: Self)
        ensures
            copy@ == self@,
    {
        ClientResponsePayload {
            stream_key: self.stream_key.clone(),
            sequenced_packet: self.sequenced_packet.clone(),
        }
    }
}

/// The byte every response starts with: the head of a list of two.
pub const RESPONSE_MARK: u8 = 0x82;

/// A response travels as a list of two: its stream key and its chunk.
impl Wire for ClientResponsePayload {
    open spec fn wire(v: ClientResponsePayloadView) -> Seq<u8> {
        seq![RESPONSE_MARK] + StreamKey::wire(v.stream_key) + SequencedPacket::wire(
            v.sequenced_packet,
        )
    }

    open spec fn parse(s: Seq<u8>) -> Option<(ClientResponsePayloadView, Seq<u8>)> {
        match parse_tag(s) {
            Some((mark, after_mark)) => if mark == RESPONSE_MARK {
                match StreamKey::parse(after_mark) {
                    Some((stream_key, after_key)) => match SequencedPacket::parse(after_key) {
                        Some((sequenced_packet, rest)) => Some(
                            (ClientResponsePayloadView { stream_key, sequenced_packet }, rest),
                        ),
                        None => None,
                    },
                    None => None,
                }
            } else {
                None
            },
            None => None,
        }
    }

    open spec fn fits(v: ClientResponsePayloadView) -> bool {
        StreamKey::fits(v.stream_key) && SequencedPacket::fits(v.sequenced_packet)
    }

    fn put(&self, out: &mut Vec<u8>) {
        put_tag(out, RESPONSE_MARK);
        self.stream_key.put(out);
        self.sequenced_packet.put(out);
        assert(out@ =~= old(out)@ + Self::wire(self@));
    }

    fn take<'a>(input: &'a [u8]) -> (r: Option<(Self, &'a [u8])>) {
        let (mark, after_mark) = take_tag(input)?;
        if mark != RESPONSE_MARK {
            return None;
        }
        let (stream_key, after_key) = StreamKey::take(after_mark)?;
        let (sequenced_packet, rest) = SequencedPacket::take(after_key)?;
        Some((ClientResponsePayload { stream_key, sequenced_packet }, rest))
    }

    proof fn lemma_parse_wire(v: ClientResponsePayloadView, rest: Seq<u8>) {
        let after_key = SequencedPacket::wire(v.sequenced_packet) + rest;
        let after_mark = StreamKey::wire(v.stream_key) + after_key;
        assert(Self::wire(v) + rest =~= seq![RESPONSE_MARK] + after_mark);
        lemma_parse_tag(RESPONSE_MARK, after_mark);
        StreamKey::lemma_parse_wire(v.stream_key, after_key);
        SequencedPacket::lemma_parse_wire(v.sequenced_packet, rest);
    }

    proof fn lemma_wire_parsed(s: Seq<u8>) {
        let (v, rest) = Self::parse(s)->Some_0;
        lemma_tag_parsed(s);
        let after_mark = parse_tag(s)->Some_0.1;
        StreamKey::lemma_wire_parsed(after_mark);
        let after_key = StreamKey::parse(after_mark)->Some_0.1;
        SequencedPacket::lemma_wire_parsed(after_key);
        assert(Self::wire(v) + rest =~= seq![RESPONSE_MARK] + (StreamKey::wire(v.stream_key) + (
        SequencedPacket::wire(v.sequenced_packet) + rest)));
    }
}

/// Word that the host a stream asked for could not be resolved.
#[derive(Debug, PartialEq, Eq)]
pub struct DnsResolveFailure {
    pub stream_key: StreamKey,
}

/// A resolution failure as a mathematical value.
pub struct DnsResolveFailureView {
    pub stream_key: Seq<u8>,
}

impl View for DnsResolveFailure {
    type V = DnsResolveFailureView;

    open spec fn view(&self) -> DnsResolveFailureView {
        DnsResolveFailureView { stream_key: self.stream_key@ }
    }
}

impl Clone for DnsResolveFailure {
    fn clone(&self) -> (copy: Self)
        ensures
            copy@ == self@,
    {
        DnsResolveFailure { stream_key: self.stream_key.clone() }
    }
}

/// The byte every notice of a failed resolution starts with: the head of a
/// list of one.
pub const DNS_FAILURE_MARK: u8 = 0x81;

/// A notice of a failed resolution travels as a list of one: the stream key.
impl Wire for DnsResolveFailure {
    open spec fn wire(v: DnsResolveFailureView) -> Seq<u8> {
        seq![DNS_FAILURE_MARK] + StreamKey::wire(v.stream_key)
    }

    open spec fn parse(s: Seq<u8>) -> Option<(DnsResolveFailureView, Seq<u8>)> {
        match parse_tag(s) {
            Some((mark, after_mark)) => if mark == DNS_FAILURE_MARK {
                match StreamKey::parse(after_mark) {
                    Some((stream_key, rest)) => Some((DnsResolveFailureView { stream_key }, rest)),
                    None => None,
                }
            } else {
                None
            },
            None => None,
        }
    }

    open spec fn fits(v: DnsResolveFailureView) -> bool {
        StreamKey::fits(v.stream_key)
    }

    fn put(&self, out: &mut Vec<u8>) {
        put_tag(out, DNS_FAILURE_MARK);
        self.stream_key.put(out);
        assert(out@ =~= old(out)@ + Self::wire(self@));
    }

    fn take<'a>(input: &'a [u8]) -> (r: Option<(Self, &'a [u8])>) {
        let (mark, after_mark) = take_tag(input)?;
        if mark != DNS_FAILURE_MARK {
            return None;
        }
        let (stream_key, rest) = StreamKey::take(after_mark)?;
        Some((DnsResolveFailure { stream_key }, rest))
    }

    proof fn lemma_parse_wire(v: DnsResolveFailureView, rest: Seq<u8>) {
        let after_mark = StreamKey::wire(v.stream_key) + rest;
        assert(Self::wire(v) + rest =~= seq![DNS_FAILURE_MARK] + after_mark);
        lemma_parse_tag(DNS_FAILURE_MARK, after_mark);
        StreamKey::lemma_parse_wire(v.stream_key, rest);
    }

    proof fn lemma_wire_parsed(s: Seq<u8>) {
        let (v, rest) = Self::parse(s)->Some_0;
        lemma_tag_parsed(s);
        let after_mark = parse_tag(s)->Some_0.1;
        StreamKey::lemma_wire_parsed(after_mark);
        assert(Self::wire(v) + rest =~= seq![DNS_FAILURE_MARK] + (StreamKey::wire(v.stream_key)
            + rest));
    }
}

/// A chunk that an origin server sent, as the stream handler pool hands it
/// to the exit actor.
#[derive(Debug, PartialEq, Eq)]
pub struct InboundServerData {
    pub stream_key: StreamKey,
    pub last_data: bool,
    pub sequence_number: u64,
    /// The server the chunk came from.
    pub source: SocketAddress,
    pub data: Vec<u8>,
}

} // verus!
