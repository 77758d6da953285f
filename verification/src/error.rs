//! The error kinds of the proxy core.

use vstd::prelude::*;

verus! {

/// Why a handshake was rejected. The first message of a connection must be
/// an `initialize` request; a proxying connection must name a workspace
/// root; the multiplexer extension must speak our protocol version.
#[derive(Debug)]
pub enum HandshakeError {
    /// The first message was not an `initialize` request.
    NotInitialize,
    /// Neither `rootUri` nor `rootPath` was given, so no workspace — and
    /// hence no server instance — can be selected.
    MissingRoot,
    /// The `lspMux` extension named a protocol version other than ours.
    VersionMismatch,
}

/// The error kinds that operations of the proxy core report.
#[derive(Debug)]
pub enum MuxError {
    /// The handshake on a fresh connection failed.
    Handshake(HandshakeError),
    /// The server process could not be started.
    Spawn,
    /// I/O on a client or server stream failed.
    Transport,
    /// A message broke the protocol: a duplicate live client id, or an
    /// operation on a session or instance in the wrong state.
    ProtocolViolation,
    /// A registry operation raced an in-flight spawn or named an unknown
    /// instance.
    Registry,
}

} // verus!
