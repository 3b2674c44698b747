//! The upstream session handshake: the daemon answers state-changing
//! calls with HTTP 409 until the caller echoes the session token it
//! hands out in a dedicated header. The proxy caches the token it sees
//! and the client library retries.

use vstd::prelude::*;

verus! {

/// Errors of the session-aware RPC client.
#[derive(Clone, Copy, Debug, PartialEq, Eq, Structural)]
pub enum ClientError {
    /// The response arguments do not match the request's kind.
    ResponseTypeMismatch,
    /// The response tag does not match the request tag.
    TagMismatch,
    /// No session token has been seen yet.
    NoSessionId,
}

/// Whether a session token from the upstream has been seen.
pub enum ClientState {
    NoSession,
    HasSession(String),
}

impl ClientState {
    /// The cached token, or `NoSessionId` before the first handshake.
    pub fn get_session_id(&self) -> (r: Result<&str, ClientError>)
        ensures
            match self {
                ClientState::HasSession(id) => r matches Ok(s) && s@ == id@,
                ClientState::NoSession => r matches Err(e) && e is NoSessionId,
            },
    {
        match self {
            ClientState::HasSession(id) => Ok(id.as_str()),
            ClientState::NoSession => Err(ClientError::NoSessionId),
        }
    }
}

impl Default for ClientState {
    fn default() -> (r: Self)
        ensures
            r is NoSession,
    {
        ClientState::NoSession
    }
}

/// The header that carries the session token.
pub fn session_id_header() -> (r: &'static str)
    ensures
        r@ == "X-Transmission-Session-Id"@,
{
    "X-Transmission-Session-Id"
}

/// What an upstream response does to the cached token: a 409 carrying
/// the header replaces it; everything else leaves the state alone.
pub fn observe_upstream_response(
    state: ClientState,
    status: u16,
    session_header: Option<String>,
) -> (r: ClientState)
    ensures
        status == 409 ==> match session_header {
            Some(t) => r matches ClientState::HasSession(u) && u@ == t@,
            None => r == state,
        },
        status != 409 ==> r == state,
{
    if status == 409 {
        match session_header {
            Some(t) => ClientState::HasSession(t),
            None => state,
        }
    } else {
        state
    }
}

/// Tag correlation on the client side: a response is accepted only with
/// the tag the request carried.
pub fn check_response_tag(request_tag: Option<i32>, response_tag: Option<i32>) -> (r: Result<
    (),
    ClientError,
>)
    ensures
        r is Ok <==> request_tag == response_tag,
        r matches Err(e) ==> e is TagMismatch,
{
    match (request_tag, response_tag) {
        (None, None) => Ok(()),
        (Some(a), Some(b)) => if a == b {
            Ok(())
        } else {
            Err(ClientError::TagMismatch)
        },
        _ => Err(ClientError::TagMismatch),
    }
}

/// The next correlation tag.
pub fn next_tag(tag: i32) -> (r: i32)
    requires
        tag < i32::MAX,
    ensures
        r == tag + 1,
{
    tag + 1
}

} // verus!
