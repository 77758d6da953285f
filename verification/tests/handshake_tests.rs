//! Role negotiation and rider stripping on the `initialize` handshake.

use lspmux::error::HandshakeError;
use lspmux::handshake::{
    classify_handshake, control_request_params, is_initialize, strip_lsp_mux, ControlRequest,
    HandshakeOutcome,
};
use lspmux::lsp::{InitializationOptions, InitializeParams, LspMuxOptions, MuxRequest};

fn bare_params() -> InitializeParams {
    InitializeParams {
        process_id: None,
        client_info: None,
        locale: None,
        root_path: None,
        root_uri: None,
        initialization_options: None,
        capabilities: None,
        trace: None,
        workspace_folders: Vec::new(),
    }
}

fn with_mux(method: MuxRequest, version: &str) -> InitializeParams {
    let mut p = bare_params();
    p.initialization_options = Some(InitializationOptions {
        lsp_mux: Some(LspMuxOptions { version: version.to_string(), method }),
        other_options: serde_json::Map::new(),
    });
    p
}

#[test]
fn initialize_method_name_is_recognised() {
    assert!(is_initialize(&"initialize".to_string()));
    assert!(!is_initialize(&"initialized".to_string()));
    assert!(!is_initialize(&"shutdown".to_string()));
}

#[test]
fn status_rider_selects_control_role() {
    let p = with_mux(MuxRequest::Status, "1");
    match classify_handshake(p, "srv".to_string(), Vec::new()) {
        HandshakeOutcome::Control(ControlRequest::Status) => {}
        _ => panic!("expected a control status outcome"),
    }
}

#[test]
fn reload_rider_selects_control_role_with_cwd() {
    let p = with_mux(MuxRequest::Reload { cwd: "/home/u/ws".to_string() }, "1");
    match classify_handshake(p, "srv".to_string(), Vec::new()) {
        HandshakeOutcome::Control(ControlRequest::Reload { cwd }) => {
            assert_eq!(cwd, "/home/u/ws");
        }
        _ => panic!("expected a control reload outcome"),
    }
}

#[test]
fn connect_rider_selects_proxy_role_with_root_uri() {
    let mut p = with_mux(
        MuxRequest::Connect {
            server: "rust-analyzer".to_string(),
            args: vec!["--stdio".to_string()],
        },
        "1",
    );
    p.root_uri = Some("file:///ws1".to_string());
    p.root_path = Some("/ignored".to_string());
    match classify_handshake(p, "fallback".to_string(), Vec::new()) {
        HandshakeOutcome::Proxy { key } => {
            assert_eq!(key.workspace_root, "file:///ws1");
            assert_eq!(key.server, "rust-analyzer");
            assert_eq!(key.args, vec!["--stdio".to_string()]);
        }
        _ => panic!("expected a proxy outcome"),
    }
}

#[test]
fn root_path_is_the_fallback_root() {
    let mut p = bare_params();
    p.root_path = Some("/ws2".to_string());
    match classify_handshake(p, "srv".to_string(), Vec::new()) {
        HandshakeOutcome::Proxy { key } => {
            assert_eq!(key.workspace_root, "/ws2");
            assert_eq!(key.server, "srv");
        }
        _ => panic!("expected a proxy outcome"),
    }
}

#[test]
fn missing_root_rejects_the_handshake() {
    let p = bare_params();
    match classify_handshake(p, "srv".to_string(), Vec::new()) {
        HandshakeOutcome::Reject(HandshakeError::MissingRoot) => {}
        _ => panic!("expected a missing-root rejection"),
    }
}

#[test]
fn foreign_protocol_version_is_rejected() {
    let mut p = with_mux(MuxRequest::Status, "0");
    p.root_uri = Some("file:///ws1".to_string());
    match classify_handshake(p, "srv".to_string(), Vec::new()) {
        HandshakeOutcome::Reject(HandshakeError::VersionMismatch) => {}
        _ => panic!("expected a version-mismatch rejection"),
    }
}

#[test]
fn strip_removes_the_rider_and_keeps_the_rest() {
    let mut p = with_mux(MuxRequest::Status, "1");
    p.root_uri = Some("file:///ws1".to_string());
    p.locale = Some("en".to_string());
    let mut other = serde_json::Map::new();
    other.insert("custom".to_string(), serde_json::Value::Bool(true));
    p.initialization_options.as_mut().unwrap().other_options = other.clone();
    let stripped = strip_lsp_mux(p);
    assert_eq!(stripped.root_uri.as_deref(), Some("file:///ws1"));
    assert_eq!(stripped.locale.as_deref(), Some("en"));
    let opts = stripped.initialization_options.expect("options kept");
    assert!(opts.lsp_mux.is_none());
    assert_eq!(opts.other_options, other);
}

#[test]
fn strip_keeps_absent_options_absent() {
    let stripped = strip_lsp_mux(bare_params());
    assert!(stripped.initialization_options.is_none());
}

#[test]
fn control_request_params_carry_only_the_rider() {
    let p = control_request_params(MuxRequest::Status);
    assert!(p.root_uri.is_none());
    assert!(p.root_path.is_none());
    assert!(p.process_id.is_none());
    assert!(p.workspace_folders.is_empty());
    let opts = p.initialization_options.expect("rider present");
    let mux = opts.lsp_mux.expect("rider present");
    assert_eq!(mux.version, "1");
    assert!(matches!(mux.method, MuxRequest::Status));
}
