//! An authenticating mediator for a BitTorrent daemon's JSON-RPC control API.
//!
//! The crate holds the RPC mediation engine: the ACL resolver, the per-method
//! request and response filters, the torrent-metainfo codec and tracker-URL
//! rewriter, and the session-handshake state shared with the upstream daemon.

pub mod acl;
pub mod auth;
pub mod codec;
pub mod filter;
pub mod mediator;
pub mod metainfo;
pub mod paths;
pub mod rpc;
pub mod search;
pub mod session;
pub mod tracker;
