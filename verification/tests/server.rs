use mcp_server::protocol::{CapabilitySet, ClientInfo, InitializeRequest, InitializeResponse, ServerError};
use mcp_server::server::{McpProtocol, McpServer};

#[test]
fn it_works() {
    assert_eq!(4, 4);
}

#[test]
fn initialize_returns_fixed_response() {
    let srv = McpServer::new(8080, 8081);
    let client = ClientInfo {
        name: "test".to_string(),
        version: "1.0".to_string(),
    };
    let r = srv.initialize("0.0.1", CapabilitySet::new(), client);
    let resp = r.expect("initialize must succeed");
    assert_eq!(resp.protocol_version, "2024-11-05");
    assert!(resp.capabilities.is_empty());
    assert!(resp.session_id.is_none());
    assert!(resp.authentication.is_none());
    assert_eq!(resp.server_info.name, "");
    assert_eq!(resp.server_info.version, "");
}

#[test]
fn initialize_ignores_request_fields() {
    let srv = McpServer::new(1, 2);
    let a = srv
        .initialize(
            "0.0.1",
            CapabilitySet::new(),
            ClientInfo {
                name: "alpha".to_string(),
                version: "9".to_string(),
            },
        )
        .unwrap();
    let mut caps = CapabilitySet::new();
    caps.insert("tools".to_string(), "yes".to_string());
    let b = srv
        .initialize(
            "2024-11-05",
            caps,
            ClientInfo {
                name: "beta".to_string(),
                version: "0".to_string(),
            },
        )
        .unwrap();
    assert_eq!(a.protocol_version, b.protocol_version);
    assert_eq!(a.capabilities.len(), b.capabilities.len());
    assert_eq!(a.session_id, b.session_id);
    assert_eq!(a.authentication, b.authentication);
    assert_eq!(a.server_info.name, b.server_info.name);
    assert_eq!(a.server_info.version, b.server_info.version);
}

#[test]
fn initialized_is_an_idempotent_no_op() {
    let srv = McpServer::new(8080, 8081);
    for _ in 0..5 {
        assert!(srv.initialized().is_ok());
    }
}

#[test]
fn endpoint_event_carries_encoded_handshake_url() {
    let srv = McpServer::new(8080, 8081);
    let ev = srv.endpoint_event();
    assert_eq!(ev.event, "endpoint");
    assert_eq!(ev.data, "http%3A%2F%2Flocalhost%3A8081");
}

#[test]
fn announcement_payload_decodes_to_handshake_url() {
    let srv = McpServer::new(8080, 8081);
    let ev = srv.endpoint_event();
    let decoded = mcp_server::encoding::percent_decode(&ev.data);
    assert_eq!(decoded, Some("http://localhost:8081".to_string()));
    assert_eq!(srv.handshake_url(), "http://localhost:8081");
}

#[test]
fn every_tick_announces_the_same_endpoint() {
    let srv = McpServer::new(8080, 8081);
    let first = srv.endpoint_event();
    for _ in 0..3 {
        let next = srv.endpoint_event();
        assert_eq!(next.event, first.event);
        assert_eq!(next.data, first.data);
    }
}

#[test]
fn subscribers_get_independent_equal_streams() {
    let one = McpServer::new(8080, 8081);
    let two = McpServer::new(8080, 8081);
    let a = one.endpoint_event();
    let b = two.endpoint_event();
    assert_eq!(a.event, b.event);
    assert_eq!(a.data, b.data);
    drop(one);
    let c = two.endpoint_event();
    assert_eq!(c.data, b.data);
}

#[test]
fn handshake_url_formats_any_port() {
    assert_eq!(McpServer::new(1, 80).handshake_url(), "http://localhost:80");
    assert_eq!(McpServer::new(1, 0).handshake_url(), "http://localhost:0");
    assert_eq!(
        McpServer::new(1, 65535).handshake_url(),
        "http://localhost:65535"
    );
}

#[test]
fn start_needs_both_listeners_bound() {
    assert_eq!(mcp_server::server::start_outcome(true, true), Ok(()));
    assert_eq!(
        mcp_server::server::start_outcome(false, true),
        Err(ServerError::Bind)
    );
    assert_eq!(
        mcp_server::server::start_outcome(true, false),
        Err(ServerError::Bind)
    );
    assert_eq!(
        mcp_server::server::start_outcome(false, false),
        Err(ServerError::Bind)
    );
}

#[test]
fn keep_alive_constants() {
    assert_eq!(mcp_server::server::keep_alive_text(), "keep-alive-text");
    assert_eq!(mcp_server::server::announce_interval_secs(), 1);
}

#[test]
fn defaults_match_the_protocol_constants() {
    let req = InitializeRequest::default();
    assert_eq!(req.protocol_version, "2024-11-05");
    assert!(req.capabilities.is_empty());
    assert!(req.session_id.is_none());
    assert!(req.authentication.is_none());
    assert_eq!(req.client_info.name, "");
    let resp = InitializeResponse::default();
    assert_eq!(resp.protocol_version, "2024-11-05");
    assert!(resp.capabilities.is_empty());
    assert_eq!(mcp_server::protocol::protocol_version(), "2024-11-05");
}
