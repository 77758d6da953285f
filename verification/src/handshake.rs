//! Role negotiation on a fresh connection.
//!
//! A connection's first message must be an `initialize` request. Its
//! `initializationOptions.lspMux` rider, when it carries a control method
//! (status, reload), turns the connection into a one-shot control session;
//! otherwise the connection proxies to a language server selected by the
//! workspace root from `rootUri`/`rootPath` and by the launch command. The
//! rider is always stripped before the request can reach a real server.

use vstd::prelude::*;

use crate::error::HandshakeError;
use crate::key::WorkspaceKey;
use crate::lsp::{InitializationOptions, InitializeParams, LspMuxOptions, MuxRequest};

verus! {

/// A control request answered by the proxy itself, without any server.
pub enum ControlRequest {
    Status,
    Reload { cwd: String },
}

/// What the handshake decided for a connection: answer a control request,
/// proxy to the instance identified by a workspace key, or reject.
pub enum HandshakeOutcome {
    Control(ControlRequest),
    Proxy { key: WorkspaceKey },
    Reject(HandshakeError),
}

/// Whether a method name selects the `initialize` request.
pub fn is_initialize(method: &String) -> (r: bool)
    ensures
        r == (method@ == "initialize"@),
{
    let lit: &str = "initialize";
    *method == String::from_str(lit)
}

/// The workspace root named by `initialize` params: `rootUri` if present,
/// else `rootPath`, else nothing.
pub open spec fn spec_root_of(
    root_uri: Option<String>,
    root_path: Option<String>,
) -> Option<String> {
    if root_uri is Some {
        root_uri
    } else {
        root_path
    }
}

/// The version named by the rider, if one rides along.
pub open spec fn spec_mux_of(params: InitializeParams) -> Option<LspMuxOptions> {
    match params.initialization_options {
        Some(opts) => opts.lsp_mux,
        None => None,
    }
}

/// What the handshake decides on given `initialize` params, given the
/// launch command to use when the rider does not name one itself.
pub open spec fn spec_classify(
    params: InitializeParams,
    fallback_server: String,
    fallback_args: Vec<String>,
) -> HandshakeOutcome {
    match spec_mux_of(params) {
        Some(mux) => if mux.version@ != "1"@ {
            HandshakeOutcome::Reject(HandshakeError::VersionMismatch)
        } else {
            match mux.method {
                MuxRequest::Status => HandshakeOutcome::Control(ControlRequest::Status),
                MuxRequest::Reload { cwd } => HandshakeOutcome::Control(
                    ControlRequest::Reload { cwd },
                ),
                MuxRequest::Connect { server, args } => match spec_root_of(
                    params.root_uri,
                    params.root_path,
                ) {
                    Some(root) => HandshakeOutcome::Proxy {
                        key: WorkspaceKey { workspace_root: root, server, args },
                    },
                    None => HandshakeOutcome::Reject(HandshakeError::MissingRoot),
                },
            }
        },
        None => match spec_root_of(params.root_uri, params.root_path) {
            Some(root) => HandshakeOutcome::Proxy {
                key: WorkspaceKey {
                    workspace_root: root,
                    server: fallback_server,
                    args: fallback_args,
                },
            },
            None => HandshakeOutcome::Reject(HandshakeError::MissingRoot),
        },
    }
}

/// Negotiate the role of a fresh connection from its `initialize` params.
///
/// A rider with a control method selects the control role; any other
/// request proxies, with the workspace root read from `rootUri`, falling
/// back to `rootPath` — without either no instance can be selected and the
/// handshake fails. A rider speaking a foreign protocol version is
/// rejected. The launch command comes from the rider's connect method, or
/// from the given fallback when no rider rides along.
pub fn classify_handshake(
    params: InitializeParams,
    fallback_server: String,
    fallback_args: Vec<String>,
) -> (r: HandshakeOutcome)
    ensures
        r == spec_classify(params, fallback_server, fallback_args),
{
    let root: Option<String> = match params.root_uri {
        Some(u) => Some(u),
        None => params.root_path,
    };
    let mux: Option<LspMuxOptions> = match params.initialization_options {
        Some(opts) => opts.lsp_mux,
        None => None,
    };
    match mux {
        Some(m) => {
            if !(m.version == String::from_str(protocol_version_str())) {
                return HandshakeOutcome::Reject(HandshakeError::VersionMismatch);
            }
            match m.method {
                MuxRequest::Status => HandshakeOutcome::Control(ControlRequest::Status),
                MuxRequest::Reload { cwd } => HandshakeOutcome::Control(
                    ControlRequest::Reload { cwd },
                ),
                MuxRequest::Connect { server, args } => match root {
                    Some(r) => HandshakeOutcome::Proxy {
                        key: WorkspaceKey { workspace_root: r, server, args },
                    },
                    None => HandshakeOutcome::Reject(HandshakeError::MissingRoot),
                },
            }
        },
        None => match root {
            Some(r) => HandshakeOutcome::Proxy {
                key: WorkspaceKey {
                    workspace_root: r,
                    server: fallback_server,
                    args: fallback_args,
                },
            },
            None => HandshakeOutcome::Reject(HandshakeError::MissingRoot),
        },
    }
}

fn protocol_version_str() -> (r: &'static str)
    ensures
        r@ == "1"@,
{
    crate::lsp::protocol_version()
}

/// Remove the multiplexer's rider from `initialize` params, leaving every
/// other field — including the client's own initialization options — as it
/// was. No message carrying the rider may reach a real server.
pub fn strip_lsp_mux(params: InitializeParams) -> (r: InitializeParams)
    ensures
        r.process_id == params.process_id,
        r.client_info == params.client_info,
        r.locale == params.locale,
        r.root_path == params.root_path,
        r.root_uri == params.root_uri,
        r.capabilities == params.capabilities,
        r.trace == params.trace,
        r.workspace_folders == params.workspace_folders,
        params.initialization_options is None ==> r.initialization_options is None,
        params.initialization_options is Some ==> r.initialization_options is Some
            && r.initialization_options->0.lsp_mux is None
            && r.initialization_options->0.other_options
            == params.initialization_options->0.other_options,
        spec_mux_of(r) is None,
{
    let InitializeParams {
        process_id,
        client_info,
        locale,
        root_path,
        root_uri,
        initialization_options,
        capabilities,
        trace,
        workspace_folders,
    } = params;
    let initialization_options = match initialization_options {
        Some(opts) => Some(
            InitializationOptions { lsp_mux: None, other_options: opts.other_options },
        ),
        None => None,
    };
    InitializeParams {
        process_id,
        client_info,
        locale,
        root_path,
        root_uri,
        initialization_options,
        capabilities,
        trace,
        workspace_folders,
    }
}

/// The `initialize` params an out-of-band control client sends: nothing
/// but the multiplexer rider carrying the given request.
pub fn control_request_params(method: MuxRequest) -> (r: InitializeParams)
    ensures
        r.process_id is None,
        r.client_info is None,
        r.locale is None,
        r.root_path is None,
        r.root_uri is None,
        r.capabilities is None,
        r.trace is None,
        r.workspace_folders@.len() == 0,
        r.initialization_options is Some,
        r.initialization_options->0.lsp_mux is Some,
        r.initialization_options->0.lsp_mux->0.version@ == "1"@,
        r.initialization_options->0.lsp_mux->0.method == method,
{
    InitializeParams {
        process_id: None,
        client_info: None,
        locale: None,
        root_path: None,
        root_uri: None,
        initialization_options: Some(
            InitializationOptions {
                lsp_mux: Some(
                    LspMuxOptions {
                        version: String::from_str(protocol_version_str()),
                        method,
                    },
                ),
                other_options: serde_json::Map::new(),
            },
        ),
        capabilities: None,
        trace: None,
        workspace_folders: Vec::new(),
    }
}

} // verus!
