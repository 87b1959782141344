//! The exit actor: it takes the requests that reach this node as their
//! exit, remembers for each stream the way back to its client, wraps what
//! the origin servers send for the journey back, and says what is to be
//! billed.
//!
//! The actor decides; it does not send. Each handler takes one event,
//! changes the table of streams, and returns what is to be done: what to
//! hand to the stream handler pool, to the hopper and to the accountant.

use vstd::prelude::*;
use crate::cryptde::CryptDE;
use crate::hopper::{
    incipient_view, ExpiredCoresPackage, IncipientCoresPackage, MessageType, MessageTypeView,
    PackageView,
};
use crate::net::SocketAddress;
use crate::stream::{
    ClientRequestPayload, ClientRequestPayloadView, ClientResponsePayload,
    ClientResponsePayloadView, DnsResolveFailure, DnsResolveFailureView, InboundServerData,
    SequencedPacket, SequencedPacketView, StreamKey,
};
use crate::stream_contexts::{StreamContext, StreamContextView, StreamContexts};
use crate::wallet::{clone_wallet, wallet_view, Wallet};

verus! {

/// What the exit actor is set up with.
pub struct ProxyClientConfig<C: CryptDE> {
    pub cryptde: C,
    /// The DNS servers to resolve host names with; at least one.
    pub dns_servers: Vec<SocketAddress>,
    pub exit_service_rate: u64,
    pub exit_byte_rate: u64,
}

/// The way to reach a name server.
#[derive(Debug, Clone, Copy, PartialEq, Eq, Structural)]
pub enum NameServerProtocol {
    Udp,
    Tcp,
}

/// One name server for the resolver to ask.
#[derive(Debug, PartialEq, Eq)]
pub struct NameServer {
    pub socket_addr: SocketAddress,
    pub protocol: NameServerProtocol,
    pub tls_dns_name: Option<String>,
}

/// Word to the accountant that exit service was provided.
#[derive(Debug, PartialEq, Eq)]
pub struct ReportExitServiceProvidedMessage {
    pub consuming_wallet: Wallet,
    pub payload_size: usize,
    pub service_rate: u64,
    pub byte_rate: u64,
}

/// An exit report as a mathematical value.
pub struct ExitReportView {
    pub consuming_wallet: Seq<char>,
    pub payload_size: nat,
    pub service_rate: u64,
    pub byte_rate: u64,
}

impl View for ReportExitServiceProvidedMessage {
    type V = ExitReportView;

    open spec fn view(&self) -> ExitReportView {
        ExitReportView {
            consuming_wallet: self.consuming_wallet@,
            payload_size: self.payload_size as nat,
            service_rate: self.service_rate,
            byte_rate: self.byte_rate,
        }
    }
}

/// The view of an exit report that may be absent.
pub open spec fn report_view(report: Option<ReportExitServiceProvidedMessage>) -> Option<
    ExitReportView,
> {
    match report {
        Some(r) => Some(r@),
        None => None,
    }
}

/// What is to be done about a request.
#[derive(Debug, PartialEq, Eq)]
pub enum RequestOutcome {
    /// Hand the payload and the wallet to the stream handler pool.
    Accepted { payload: ClientRequestPayload, consuming_wallet: Option<Wallet> },
    /// Nobody pays and the request is not this node's own: nothing is
    /// handed on. `payload_size` is the number of bytes turned away.
    Refused { payload_size: usize },
}

/// An outcome of a request as a mathematical value.
pub enum RequestOutcomeView {
    Accepted { payload: ClientRequestPayloadView, consuming_wallet: Option<Seq<char>> },
    Refused { payload_size: nat },
}

impl View for RequestOutcome {
    type V = RequestOutcomeView;

    open spec fn view(&self) -> RequestOutcomeView {
        match self {
            RequestOutcome::Accepted { payload, consuming_wallet } => RequestOutcomeView::Accepted {
                payload: payload@,
                consuming_wallet: wallet_view(*consuming_wallet),
            },
            RequestOutcome::Refused { payload_size } => RequestOutcomeView::Refused {
                payload_size: *payload_size as nat,
            },
        }
    }
}

/// What is to be done about a chunk from an origin server.
#[derive(Debug, PartialEq, Eq)]
pub enum ResponseOutcome {
    /// No stream is known by the chunk's key: nothing goes to the hopper,
    /// nothing to the accountant.
    Unsolicited { data_len: usize, source: SocketAddress, sequence_number: u64 },
    /// The chunk could not be wrapped for the way back: nothing goes to the
    /// hopper, nothing to the accountant. `error` says why.
    PackagingFailed { data_len: usize, source: SocketAddress, sequence_number: u64, error: String },
    /// Send `package` to the hopper. With an `exit_report`, send that to the
    /// accountant; without one the chunk was relayed for free.
    Relayed {
        package: IncipientCoresPackage,
        exit_report: Option<ReportExitServiceProvidedMessage>,
        data_len: usize,
    },
}

/// An outcome of a chunk as a mathematical value.
pub enum ResponseOutcomeView {
    Unsolicited { data_len: nat, source: SocketAddress, sequence_number: u64 },
    PackagingFailed {
        data_len: nat,
        source: SocketAddress,
        sequence_number: u64,
        error: Seq<char>,
    },
    Relayed { package: PackageView, exit_report: Option<ExitReportView>, data_len: nat },
}

impl View for ResponseOutcome {
    type V = ResponseOutcomeView;

    open spec fn view(&self) -> ResponseOutcomeView {
        match self {
            ResponseOutcome::Unsolicited {
                data_len,
                source,
                sequence_number,
            } => ResponseOutcomeView::Unsolicited {
                data_len: *data_len as nat,
                source: *source,
                sequence_number: *sequence_number,
            },
            ResponseOutcome::PackagingFailed {
                data_len,
                source,
                sequence_number,
                error,
            } => ResponseOutcomeView::PackagingFailed {
                data_len: *data_len as nat,
                source: *source,
                sequence_number: *sequence_number,
                error: error@,
            },
            ResponseOutcome::Relayed {
                package,
                exit_report,
                data_len,
            } => ResponseOutcomeView::Relayed {
                package: package@,
                exit_report: report_view(*exit_report),
                data_len: *data_len as nat,
            },
        }
    }
}

/// What is to be done about a failed name resolution.
#[derive(Debug, PartialEq, Eq)]
pub enum DnsFailureOutcome {
    /// Send `package` to the hopper: it tells the client.
    Notified { package: IncipientCoresPackage },
    /// No stream is known by that key.
    NonexistentStream { stream_key: StreamKey },
    /// The notice could not be wrapped for the way back. `error` says why.
    PackagingFailed { error: String },
}

/// An outcome of a failed resolution as a mathematical value.
pub enum DnsFailureOutcomeView {
    Notified { package: PackageView },
    NonexistentStream { stream_key: Seq<u8> },
    PackagingFailed { error: Seq<char> },
}

impl View for DnsFailureOutcome {
    type V = DnsFailureOutcomeView;

    open spec fn view(&self) -> DnsFailureOutcomeView {
        match self {
            DnsFailureOutcome::Notified { package } => DnsFailureOutcomeView::Notified {
                package: package@,
            },
            DnsFailureOutcome::NonexistentStream {
                stream_key,
            } => DnsFailureOutcomeView::NonexistentStream { stream_key: stream_key@ },
            DnsFailureOutcome::PackagingFailed {
                error,
            } => DnsFailureOutcomeView::PackagingFailed { error: error@ },
        }
    }
}

/// A request as it reaches the exit actor, as a mathematical value.
pub struct RequestView {
    pub consuming_wallet: Option<Seq<char>>,
    pub remaining_route: Seq<Seq<u8>>,
    pub payload: ClientRequestPayloadView,
}

/// The view of a request as it reaches the exit actor.
pub open spec fn request_view(msg: ExpiredCoresPackage<ClientRequestPayload>) -> RequestView {
    RequestView {
        consuming_wallet: wallet_view(msg.consuming_wallet),
        remaining_route: msg.remaining_route@,
        payload: msg.payload@,
    }
}

/// A chunk from an origin server, as a mathematical value.
pub struct InboundView {
    pub stream_key: Seq<u8>,
    pub last_data: bool,
    pub sequence_number: u64,
    pub source: SocketAddress,
    pub data: Seq<u8>,
}

/// The view of a chunk from an origin server.
pub open spec fn inbound_view(msg: InboundServerData) -> InboundView {
    InboundView {
        stream_key: msg.stream_key@,
        last_data: msg.last_data,
        sequence_number: msg.sequence_number,
        source: msg.source,
        data: msg.data@,
    }
}

/// The table of streams, as a mathematical value.
pub type Contexts = Map<Seq<u8>, StreamContextView>;

/// Exit service is given to whoever pays, and to this node itself for free.
pub open spec fn accepts(local_key: Seq<u8>, msg: RequestView) -> bool {
    msg.consuming_wallet is Some || msg.payload.originator_public_key == local_key
}

/// What the actor remembers of a request it accepts.
pub open spec fn context_of(msg: RequestView) -> StreamContextView {
    StreamContextView {
        return_route: msg.remaining_route,
        payload_destination_key: msg.payload.originator_public_key,
        consuming_wallet: msg.consuming_wallet,
    }
}

/// The table after a request: an accepted request puts its context in the
/// place of whatever was remembered for its stream.
pub open spec fn contexts_after_request(contexts: Contexts, local_key: Seq<u8>, msg: RequestView)
    -> Contexts {
    if accepts(local_key, msg) {
        contexts.insert(msg.payload.stream_key, context_of(msg))
    } else {
        contexts
    }
}

/// What is to be done about a request.
pub open spec fn request_outcome(local_key: Seq<u8>, msg: RequestView) -> RequestOutcomeView {
    if accepts(local_key, msg) {
        RequestOutcomeView::Accepted {
            payload: msg.payload,
            consuming_wallet: msg.consuming_wallet,
        }
    } else {
        RequestOutcomeView::Refused { payload_size: msg.payload.sequenced_packet.data.len() }
    }
}

/// The payload that carries a chunk back to the client.
pub open spec fn response_payload(msg: InboundView) -> MessageTypeView {
    MessageTypeView::ClientResponse(
        ClientResponsePayloadView {
            stream_key: msg.stream_key,
            sequenced_packet: SequencedPacketView {
                data: msg.data,
                sequence_number: msg.sequence_number,
                last_data: msg.last_data,
            },
        },
    )
}

/// The report on `payload_size` bytes served under `context`, if anybody pays.
pub open spec fn exit_report_spec(
    context: StreamContextView,
    payload_size: nat,
    service_rate: u64,
    byte_rate: u64,
) -> Option<ExitReportView> {
    match context.consuming_wallet {
        Some(wallet) => Some(
            ExitReportView { consuming_wallet: wallet, payload_size, service_rate, byte_rate },
        ),
        None => None,
    }
}

/// The package that carries a chunk back along the way remembered in
/// `context`, or the message that wrapping it fails with.
pub open spec fn response_package<C: CryptDE>(context: StreamContextView, msg: InboundView)
    -> Result<PackageView, Seq<char>> {
    IncipientCoresPackage::new_spec::<C>(
        context.return_route,
        response_payload(msg),
        context.payload_destination_key,
    )
}

/// Whether a chunk is relayed: its stream is known and the chunk can be
/// wrapped for the way back.
pub open spec fn relays<C: CryptDE>(contexts: Contexts, msg: InboundView) -> bool {
    contexts.contains_key(msg.stream_key) && response_package::<C>(
        contexts[msg.stream_key],
        msg,
    ) is Ok
}

/// What is to be done about a chunk from an origin server.
pub open spec fn response_outcome<C: CryptDE>(
    contexts: Contexts,
    service_rate: u64,
    byte_rate: u64,
    msg: InboundView,
) -> ResponseOutcomeView {
    if !contexts.contains_key(msg.stream_key) {
        ResponseOutcomeView::Unsolicited {
            data_len: msg.data.len(),
            source: msg.source,
            sequence_number: msg.sequence_number,
        }
    } else {
        let context = contexts[msg.stream_key];
        match response_package::<C>(context, msg) {
            Ok(package) => ResponseOutcomeView::Relayed {
                package,
                exit_report: exit_report_spec(context, msg.data.len(), service_rate, byte_rate),
                data_len: msg.data.len(),
            },
            Err(error) => ResponseOutcomeView::PackagingFailed {
                data_len: msg.data.len(),
                source: msg.source,
                sequence_number: msg.sequence_number,
                error,
            },
        }
    }
}

/// The table after a chunk: the stream is forgotten when its last chunk
/// has been wrapped for the way back.
pub open spec fn contexts_after_response<C: CryptDE>(contexts: Contexts, msg: InboundView)
    -> Contexts {
    if relays::<C>(contexts, msg) && msg.last_data {
        contexts.remove(msg.stream_key)
    } else {
        contexts
    }
}

/// What is to be done about a failed name resolution. The table stays as it
/// is: the pool says when a stream is over.
pub open spec fn dns_failure_outcome<C: CryptDE>(contexts: Contexts, stream_key: Seq<u8>)
    -> DnsFailureOutcomeView {
    if !contexts.contains_key(stream_key) {
        DnsFailureOutcomeView::NonexistentStream { stream_key }
    } else {
        let context = contexts[stream_key];
        match IncipientCoresPackage::new_spec::<C>(
            context.return_route,
            MessageTypeView::DnsResolveFailed(DnsResolveFailureView { stream_key }),
            context.payload_destination_key,
        ) {
            Ok(package) => DnsFailureOutcomeView::Notified { package },
            Err(error) => DnsFailureOutcomeView::PackagingFailed { error },
        }
    }
}

/// The name servers a resolver is to be set up with: each of the servers,
/// asked over UDP, with no TLS name.
pub open spec fn name_servers_spec(dns_servers: Seq<SocketAddress>) -> Seq<NameServer> {
    Seq::new(
        dns_servers.len(),
        |i: int|
            NameServer {
                socket_addr: dns_servers[i],
                protocol: NameServerProtocol::Udp,
                tls_dns_name: None,
            },
    )
}

/// The exit actor's state.
pub struct ProxyClient<C: CryptDE> {
    pub dns_servers: Vec<SocketAddress>,
    pub cryptde: C,
    pub stream_contexts: StreamContexts,
    pub exit_service_rate: u64,
    pub exit_byte_rate: u64,
}

impl<C: CryptDE> ProxyClient<C> {
    /// Sets the actor up with no live streams. There must be at least one
    /// DNS server.
    pub fn new(config: ProxyClientConfig<C>) -> (actor: ProxyClient<C>)
        requires
            config.dns_servers@.len() > 0,
        ensures
            actor.dns_servers == config.dns_servers,
            actor.cryptde == config.cryptde,
            actor.stream_contexts@ == Contexts::empty(),
            actor.exit_service_rate == config.exit_service_rate,
            actor.exit_byte_rate == config.exit_byte_rate,
    {
        ProxyClient {
            dns_servers: config.dns_servers,
            cryptde: config.cryptde,
            stream_contexts: StreamContexts::new(),
            exit_service_rate: config.exit_service_rate,
            exit_byte_rate: config.exit_byte_rate,
        }
    }

    /// The name servers to set the resolver up with when the actor is bound.
    pub fn name_servers(&self) -> (servers: Vec<NameServer>)
        ensures
            servers@ == name_servers_spec(self.dns_servers@),
    {
        let mut servers: Vec<NameServer> = Vec::new();
        let n: usize = self.dns_servers.len();
        let mut i: usize = 0;
        while i < n
            invariant
                n == self.dns_servers@.len(),
                i <= n,
                servers@.len() == i,
                forall|j: int|
                    0 <= j < i ==> servers@[j] == (NameServer {
                        socket_addr: self.dns_servers@[j],
                        protocol: NameServerProtocol::Udp,
                        tls_dns_name: None,
                    }),
            decreases n - i,
        {
            servers.push(
                NameServer {
                    socket_addr: self.dns_servers[i],
                    protocol: NameServerProtocol::Udp,
                    tls_dns_name: None,
                },
            );
            i += 1;
        }
        assert(servers@ =~= name_servers_spec(self.dns_servers@));
        servers
    }

    /// Whether a request is given exit service: it is if somebody pays, or
    /// if it comes from this very node.
    pub fn accepts_request(&self, msg: &ExpiredCoresPackage<ClientRequestPayload>) -> (wanted: bool)
        ensures
            wanted == accepts(self.cryptde.public_key_view(), request_view(*msg)),
    {
        msg.consuming_wallet.is_some() || msg.payload.originator_public_key.equals(
            &self.cryptde.public_key(),
        )
    }

    /// Takes a request that has reached this node as its exit. An accepted
    /// request has its way back remembered under its stream key, in place of
    /// any older one, and goes on to the pool.
    pub fn handle_request(&mut self, msg: ExpiredCoresPackage<ClientRequestPayload>) -> (outcome:
        RequestOutcome)
        ensures
            outcome@ == request_outcome(old(self).cryptde.public_key_view(), request_view(msg)),
            final(self).stream_contexts@ == contexts_after_request(
                old(self).stream_contexts@,
                old(self).cryptde.public_key_view(),
                request_view(msg),
            ),
            final(self).cryptde == old(self).cryptde,
            final(self).dns_servers == old(self).dns_servers,
            final(self).exit_service_rate == old(self).exit_service_rate,
            final(self).exit_byte_rate == old(self).exit_byte_rate,
    {
        let wanted = self.accepts_request(&msg);
        let payload = msg.payload;
        let consuming_wallet = msg.consuming_wallet;
        if wanted {
            let return_route = msg.remaining_route;
            let latest_stream_context = StreamContext {
                return_route,
                payload_destination_key: payload.originator_public_key.clone(),
                consuming_wallet: clone_wallet(&consuming_wallet),
            };
            self.stream_contexts.insert(payload.stream_key.clone(), latest_stream_context);
            RequestOutcome::Accepted { payload, consuming_wallet }
        } else {
            RequestOutcome::Refused { payload_size: payload.sequenced_packet.data.len() }
        }
    }

    /// Wraps a chunk for the way back along the route remembered in
    /// `stream_context`.
    pub fn response_to_hopper(&self, msg: InboundServerData, stream_context: &StreamContext) -> (r:
        Result<IncipientCoresPackage, String>)
        ensures
            incipient_view(r) == response_package::<C>(stream_context@, inbound_view(msg)),
    {
        let payload = MessageType::ClientResponse(
            ClientResponsePayload {
                stream_key: msg.stream_key,
                sequenced_packet: SequencedPacket {
                    data: msg.data,
                    sequence_number: msg.sequence_number,
                    last_data: msg.last_data,
                },
            },
        );
        IncipientCoresPackage::new(
            &self.cryptde,
            stream_context.return_route.clone(),
            payload,
            &stream_context.payload_destination_key,
        )
    }

    /// The report to the accountant on `msg_data_len` bytes served, if the
    /// stream has a consuming wallet.
    pub fn response_exit_report(&self, stream_context: &StreamContext, msg_data_len: usize) -> (r:
        Option<ReportExitServiceProvidedMessage>)
        ensures
            report_view(r) == exit_report_spec(
                stream_context@,
                msg_data_len as nat,
                self.exit_service_rate,
                self.exit_byte_rate,
            ),
    {
        match &stream_context.consuming_wallet {
            Some(consuming_wallet) => Some(
                ReportExitServiceProvidedMessage {
                    consuming_wallet: consuming_wallet.clone(),
                    payload_size: msg_data_len,
                    service_rate: self.exit_service_rate,
                    byte_rate: self.exit_byte_rate,
                },
            ),
            None => None,
        }
    }

    /// Takes a chunk that an origin server sent. A chunk of a known stream
    /// is wrapped for the way back; if the stream has a consuming wallet,
    /// the chunk's bytes are reported to the accountant; the last chunk of a
    /// stream ends it. A chunk of an unknown stream, or one that cannot be
    /// wrapped, changes nothing and is neither sent nor billed.
    pub fn handle_inbound_server_data(&mut self, msg: InboundServerData) -> (outcome:
        ResponseOutcome)
        ensures
            outcome@ == response_outcome::<C>(
                old(self).stream_contexts@,
                old(self).exit_service_rate,
                old(self).exit_byte_rate,
                inbound_view(msg),
            ),
            final(self).stream_contexts@ == contexts_after_response::<C>(
                old(self).stream_contexts@,
                inbound_view(msg),
            ),
            final(self).cryptde == old(self).cryptde,
            final(self).dns_servers == old(self).dns_servers,
            final(self).exit_service_rate == old(self).exit_service_rate,
            final(self).exit_byte_rate == old(self).exit_byte_rate,
    {
        let msg_data_len: usize = msg.data.len();
        let msg_source = msg.source;
        let msg_sequence_number: u64 = msg.sequence_number;
        let msg_last_data = msg.last_data;
        let msg_stream_key = msg.stream_key.clone();
        let stream_context = match self.stream_contexts.get(&msg.stream_key) {
            Some(sc) => sc,
            None => {
                return ResponseOutcome::Unsolicited {
                    data_len: msg_data_len,
                    source: msg_source,
                    sequence_number: msg_sequence_number,
                };
            },
        };
        let package = match self.response_to_hopper(msg, stream_context) {
            Ok(package) => package,
            Err(error) => {
                return ResponseOutcome::PackagingFailed {
                    data_len: msg_data_len,
                    source: msg_source,
                    sequence_number: msg_sequence_number,
                    error,
                };
            },
        };
        let exit_report = self.response_exit_report(stream_context, msg_data_len);
        if msg_last_data {
            self.stream_contexts.remove(&msg_stream_key);
        }
        ResponseOutcome::Relayed { package, exit_report, data_len: msg_data_len }
    }

    /// Takes word that the host a stream asked for could not be resolved,
    /// and wraps the notice for the stream's client. The stream stays live.
    pub fn handle_dns_resolve_failure(&self, msg: DnsResolveFailure) -> (outcome: DnsFailureOutcome)
        ensures
            outcome@ == dns_failure_outcome::<C>(self.stream_contexts@, msg.stream_key@),
    {
        match self.stream_contexts.get(&msg.stream_key) {
            Some(stream_context) => {
                match IncipientCoresPackage::new(
                    &self.cryptde,
                    stream_context.return_route.clone(),
                    MessageType::DnsResolveFailed(msg),
                    &stream_context.payload_destination_key,
                ) {
                    Ok(package) => DnsFailureOutcome::Notified { package },
                    Err(error) => DnsFailureOutcome::PackagingFailed { error },
                }
            },
            None => DnsFailureOutcome::NonexistentStream { stream_key: msg.stream_key },
        }
    }
}

} // verus!
