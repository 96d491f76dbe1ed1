//! The acceptor: mint a fresh identifier and activate a session for it.

use vstd::prelude::*;
use crate::message::welcome_of;
use crate::registry::Registry;
use crate::session::{Session, SessionState};

verus! {

/// Relies on `uuid::Uuid::new_v4` and its hyphenated rendering through
/// `to_string`: a freshly generated random version-4 identifier, 36
/// characters long. Randomness is all it offers: nothing relates one outcome
/// to another, so freshness against the registry is probabilistic, and a
/// collision falls to the registry's last-writer-wins replacement.
#[verifier::external_body]
fn mint_id() -> (r: String)
    ensures
        r@.len() == 36,
{
    uuid::Uuid::new_v4().to_string()
}

/// Accept one inbound connection: mint an identifier, build its session, and
/// activate it, which registers the identifier and queues the greeting on the
/// new connection's own handle.
pub fn accept(reg: &mut Registry) -> (r: Session)
    requires
        old(reg).wf(),
    ensures
        r.state == SessionState::Open,
        r.id@.len() == 36,
        final(reg).wf(),
        final(reg)@ == old(reg)@.insert(r.id@, seq![welcome_of(r.id@)]),
{
    let id = mint_id();
    let mut s = Session::new(id);
    s.start(reg);
    s
}

} // verus!
