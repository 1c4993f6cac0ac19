//! The server core: the two-port configuration, the stateless handshake
//! service, endpoint announcement events, and the start-up decision for
//! the paired transports.
use crate::encoding::ascii_seq;
use crate::encoding::dec_rep;
use crate::encoding::encode_component;
use crate::encoding::lemma_ascii_concat;
use crate::encoding::lemma_ascii_from_forall;
use crate::encoding::lemma_dec_rep_ascii;
use crate::encoding::lemma_percent_round_trip;
use crate::encoding::percent_decode_spec;
use crate::encoding::percent_encode;
use crate::encoding::push_dec;
use crate::protocol::is_server_response;
use crate::protocol::CapabilitySet;
use crate::protocol::ClientInfo;
use crate::protocol::InitializeResponse;
use crate::protocol::ServerError;
use vstd::prelude::*;

verus! {

/// URL under which the handshake transport is reached, for a given port.
pub open spec fn spec_handshake_url(port: u16) -> Seq<char> {
    "http://localhost:"@ + dec_rep(port as nat)
}

/// Name carried by every announcement event.
pub open spec fn spec_endpoint_event_name() -> Seq<char> {
    "endpoint"@
}

/// Text of the periodic liveness probe on the event stream.
pub open spec fn spec_keep_alive_text() -> Seq<char> {
    "keep-alive-text"@
}

/// The handshake URL is entirely ASCII.
pub proof fn lemma_handshake_url_ascii(port: u16)
    ensures
        ascii_seq(spec_handshake_url(port)),
{
    reveal_strlit("http://localhost:");
    let p = "http://localhost:"@;
    assert(p.len() == 17);
    assert(forall|i: int| 0 <= i < 17 ==> (p[i] as u32) < 128);
    lemma_ascii_from_forall(p);
    lemma_dec_rep_ascii(port as nat);
    lemma_ascii_concat(p, dec_rep(port as nat));
}

/// Law: the payload of an announcement event, percent-decoded, is exactly
/// the handshake endpoint URL it was made from.
pub proof fn lemma_announcement_payload_decodes(port: u16)
    ensures
        percent_decode_spec(percent_encode(spec_handshake_url(port))) == Some(
            spec_handshake_url(port),
        ),
{
    lemma_handshake_url_ascii(port);
    lemma_percent_round_trip(spec_handshake_url(port));
}

/// A server-pushed message advertising where the handshake transport can
/// be reached: an event name and a percent-encoded URL payload.
pub struct AnnouncementEvent {
    pub event: String,
    pub data: String,
}

/// The server core: the port of the event-stream transport and the port
/// of the handshake transport. It holds no further state.
#[derive(Clone, Copy)]
pub struct McpServer {
    sse_port: u16,
    http_port: u16,
}

/// The handshake operations a conforming server answers.
pub trait McpProtocol {
    /// Answer an `initialize` call. This server performs no negotiation:
    /// whatever the request carries, the answer is the server's fixed
    /// protocol version, an empty capability set, no session, no
    /// authentication, and its static self-description.
    fn initialize(
        &self,
        protocol_version: &str,
        capabilities: CapabilitySet,
        client_info: ClientInfo,
    ) -> (r: Result<InitializeResponse, ServerError>)
        ensures
            r matches Ok(resp) && is_server_response(resp),
    ;

    /// Acknowledge that the client finished its local setup. A no-op that
    /// succeeds however often it is called, and changes nothing.
    fn initialized(&self) -> (r: Result<(), ServerError>)
        ensures
            r == Ok::<(), ServerError>(()),
    ;
}

impl McpServer {
    /// Port of the event-stream transport.
    pub closed spec fn spec_sse_port(&self) -> u16 {
        self.sse_port
    }

    /// Port of the handshake transport.
    pub closed spec fn spec_http_port(&self) -> u16 {
        self.http_port
    }

    /// A server core for the two given ports.
    pub fn new(sse_port: u16, http_port: u16) -> (s: Self)
        ensures
            s.spec_sse_port() == sse_port,
            s.spec_http_port() == http_port,
    {
        McpServer { sse_port, http_port }
    }

    /// The externally reachable URL of this server's handshake transport.
    pub fn handshake_url(&self) -> (s: String)
        ensures
            s@ == spec_handshake_url(self.spec_http_port()),
    {
        let mut s = String::from_str("http://localhost:");
        push_dec(&mut s, self.http_port);
        s
    }

    /// The announcement event sent on every tick of the event stream:
    /// the name "endpoint" and the percent-encoded handshake URL.
    pub fn endpoint_event(&self) -> (ev: AnnouncementEvent)
        ensures
            ev.event@ == spec_endpoint_event_name(),
            ev.data@ == percent_encode(spec_handshake_url(self.spec_http_port())),
            percent_decode_spec(ev.data@) == Some(spec_handshake_url(self.spec_http_port())),
    {
        let url = self.handshake_url();
        proof {
            lemma_handshake_url_ascii(self.http_port);
            lemma_announcement_payload_decodes(self.http_port);
        }
        let data = encode_component(url.as_str());
        AnnouncementEvent { event: String::from_str("endpoint"), data }
    }
}

impl McpProtocol for McpServer {
    #[allow(unused_variables)]
    fn initialize(
        &self,
        protocol_version: &str,
        capabilities: CapabilitySet,
        client_info: ClientInfo,
    ) -> (r: Result<InitializeResponse, ServerError>) {
        Ok(InitializeResponse::default())
    }

    fn initialized(&self) -> (r: Result<(), ServerError>) {
        Ok(())
    }
}

/// Law: the answer to `initialize` does not depend on the request; any
/// two responses agree on every observable field.
pub proof fn lemma_initialize_uniform(a: InitializeResponse, b: InitializeResponse)
    requires
        is_server_response(a),
        is_server_response(b),
    ensures
        a.protocol_version@ == b.protocol_version@,
        a.capabilities@ == b.capabilities@,
        a.session_id == b.session_id,
        a.authentication == b.authentication,
        a.server_info.name@ == b.server_info.name@,
        a.server_info.version@ == b.server_info.version@,
{
    assert(a.capabilities@ =~= b.capabilities@);
}

/// Decide how start-up went: the server is started only when both
/// listeners bound; if either bind failed, the whole start fails with a
/// bind error before any connection is served.
pub fn start_outcome(sse_bound: bool, handshake_bound: bool) -> (r: Result<(), ServerError>)
    ensures
        (sse_bound && handshake_bound) ==> r == Ok::<(), ServerError>(()),
        !(sse_bound && handshake_bound) ==> r == Err::<(), ServerError>(ServerError::Bind),
{
    if sse_bound && handshake_bound {
        Ok(())
    } else {
        Err(ServerError::Bind)
    }
}

/// Text of the keep-alive probe written on the event stream's cadence.
pub fn keep_alive_text() -> (s: &'static str)
    ensures
        s@ == spec_keep_alive_text(),
{
    "keep-alive-text"
}

/// Seconds between announcement events, and between keep-alive probes.
pub fn announce_interval_secs() -> (n: u64)
    ensures
        n == 1u64,
{
    1
}

} // verus!
