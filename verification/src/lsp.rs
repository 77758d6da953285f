//! The subset of the Language Server Protocol the proxy understands.
//!
//! The proxy is not interested in the whole protocol: only the
//! `initialize` handshake is inspected, because that is where a client
//! names its workspace and where the multiplexer extension rides along in
//! `initializationOptions.lspMux`. Server capabilities and any other
//! client options are carried through opaquely.

use vstd::prelude::*;

verus! {

/// serde_json's JSON value, carried through the handshake opaquely: the
/// proxy never looks inside a client's capabilities or a server's result.
#[verifier::external_type_specification]
#[verifier::external_body]
pub struct ExValue(serde_json::Value);

/// serde_json's ordered map, used for the initialization options the
/// proxy does not interpret.
#[verifier::external_type_specification]
#[verifier::external_body]
#[verifier::reject_recursive_types(K)]
#[verifier::reject_recursive_types(V)]
pub struct ExJsonMap<K, V>(serde_json::Map<K, V>);

/// Relies on serde_json::Map::new: an empty map of initialization options.
pub assume_specification[ serde_json::Map::<String, serde_json::Value>::new ]() -> (r:
    serde_json::Map<String, serde_json::Value>);

/// The version string of the multiplexer's own handshake extension. A
/// client speaking another version is rejected rather than silently
/// misunderstood.
pub fn protocol_version() -> (r: &'static str)
    ensures
        r@ == "1"@,
{
    "1"
}

/// What a connection asks the multiplexer itself to do, carried inside
/// `initializationOptions.lspMux` of the `initialize` request.
pub enum MuxRequest {
    /// Proxy to a language server launched with this command; the
    /// workspace root comes from the surrounding `initialize` params.
    Connect { server: String, args: Vec<String> },
    /// Terminate every instance whose workspace root is a prefix of
    /// `cwd`; the next use respawns them.
    Reload { cwd: String },
    /// Report the live instances and their attached clients.
    Status,
}

/// The multiplexer extension rider: its protocol version and the request.
pub struct LspMuxOptions {
    pub version: String,
    pub method: MuxRequest,
}

/// The user-provided initialization options: the multiplexer's own rider,
/// if any, plus whatever else the client sent, carried through opaquely.
pub struct InitializationOptions {
    pub lsp_mux: Option<LspMuxOptions>,
    pub other_options: serde_json::Map<String, serde_json::Value>,
}

/// Params of the `initialize` request, as far as the proxy reads them.
pub struct InitializeParams {
    pub process_id: Option<u64>,
    pub client_info: Option<ClientInfo>,
    pub locale: Option<String>,
    pub root_path: Option<String>,
    pub root_uri: Option<String>,
    pub initialization_options: Option<InitializationOptions>,
    pub capabilities: Option<serde_json::Value>,
    pub trace: Option<TraceValue>,
    pub workspace_folders: Vec<WorkspaceFolder>,
}

/// The client's self-description in `initialize`.
pub struct ClientInfo {
    pub name: String,
    pub version: Option<String>,
}

/// The `trace` setting of `initialize`.
pub enum TraceValue {
    Off,
    Messages,
    Verbose,
}

/// One entry of `workspaceFolders` in `initialize`.
pub struct WorkspaceFolder {
    pub uri: String,
    pub name: String,
}

/// The server's answer to `initialize`. The first session's answer is
/// captured and replayed to every later session attaching to the same
/// instance, so the server sees only one `initialize`.
pub struct InitializeResult {
    pub capabilities: serde_json::Value,
    pub server_info: Option<ServerInfo>,
}

/// The server's self-description in its `initialize` result.
pub struct ServerInfo {
    pub name: String,
    pub version: Option<String>,
}

} // verus!
