//! A rendezvous relay for peer-to-peer call setup.
//!
//! Each accepted connection is assigned a fresh identifier, registered in a
//! process-wide directory, and greeted with a welcome frame that announces
//! that identifier. Inbound text frames are parsed as signaling messages and
//! forwarded, verbatim, to the connection currently registered under the
//! message's `to` identifier; frames that do not parse, or that address an
//! unregistered identifier, are dropped silently. The relay never interprets
//! the negotiation payloads it carries.

pub mod acceptor;
pub mod laws;
pub mod message;
pub mod registry;
pub mod router;
pub mod session;
