//! The session: the live state of one connection and its lifecycle.
//!
//! A session is created for a freshly accepted connection, registers itself
//! in the directory and emits its greeting on activation, routes each inbound
//! frame while open, and unregisters itself on teardown, before any other
//! resource is released.

use vstd::prelude::*;
use crate::message::{parse_fields, welcome_frame, welcome_of};
use crate::registry::Registry;
use crate::router::{forward, route_outcome, route_result, RouteOutcome};

verus! {

/// The lifecycle of a connection.
#[derive(Debug, PartialEq, Eq, Structural)]
pub enum SessionState {
    /// Accepted, not yet registered: no inbound frame is processed yet.
    Connecting,
    /// Registered and greeted: inbound frames are parsed and routed.
    Open,
    /// Tearing down: the directory entry is removed before anything else.
    Closing,
    /// Torn down.
    Closed,
}

/// The live state of one connection: its identifier and its lifecycle state.
/// Its outbound handle lives in the registry entry made at activation.
pub struct Session {
    pub id: String,
    pub state: SessionState,
}

impl Session {
    /// A session for a freshly accepted connection, not yet activated.
    pub fn new(id: String) -> (r: Session)
        ensures
            r.id@ == id@,
            r.state == SessionState::Connecting,
    {
        Session { id, state: SessionState::Connecting }
    }

    /// Activate: register this session's identifier, then queue the greeting
    /// frame on its own handle. Registration completes before the session
    /// will process any inbound frame, so a frame addressed to this
    /// identifier right after the greeting can never be lost to a
    /// registration race.
    pub fn start(&mut self, reg: &mut Registry)
        requires
            old(self).state == SessionState::Connecting,
            old(reg).wf(),
        ensures
            final(self).state == SessionState::Open,
            final(self).id@ == old(self).id@,
            final(reg).wf(),
            final(reg)@ == old(reg)@.insert(old(self).id@, seq![welcome_of(old(self).id@)]),
    {
        reg.register(self.id.clone());
        let w = welcome_frame(&self.id);
        let _ = reg.push_to(&self.id, &w);
        proof {
            assert(Seq::<Seq<char>>::empty().push(w@) =~= seq![welcome_of(self.id@)]);
            assert(reg@ =~= old(reg)@.insert(self.id@, seq![welcome_of(self.id@)]));
        }
        self.state = SessionState::Open;
    }

    /// Handle one inbound text frame: parse it as a signaling message and
    /// forward the original text to the `to` addressee, or drop it silently.
    /// The session itself is untouched: a malformed frame leaves the
    /// connection open.
    pub fn handle_frame(&self, reg: &mut Registry, text: &String) -> (r: RouteOutcome)
        requires
            self.state == SessionState::Open,
            old(reg).wf(),
        ensures
            final(reg).wf(),
            final(reg)@ == route_result(old(reg)@, text@),
            r == route_outcome(old(reg)@, text@),
    {
        match parse_fields(text) {
            Some(parsed) => forward(reg, &parsed.1, text),
            None => RouteOutcome::Malformed,
        }
    }

    /// Tear down: unregister this session's identifier before anything else
    /// is released. Idempotent — an already absent entry is not an error —
    /// and unconditional, whatever triggered the teardown.
    pub fn close(&mut self, reg: &mut Registry)
        requires
            old(reg).wf(),
        ensures
            final(self).state == SessionState::Closed,
            final(self).id@ == old(self).id@,
            final(reg).wf(),
            final(reg)@ == old(reg)@.remove(old(self).id@),
    {
        self.state = SessionState::Closing;
        reg.unregister(&self.id);
        self.state = SessionState::Closed;
    }
}

} // verus!
