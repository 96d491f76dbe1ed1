//! The router: stateless, best-effort forwarding of addressed frames.
//!
//! Given a frame and the identifier it addresses, the router consults the
//! registry and either pushes the original text to the addressee's handle or
//! drops the frame silently. It never creates, removes, or re-keys registry
//! entries, and it never re-encodes a frame.

use vstd::prelude::*;
use crate::message::parse_of;
use crate::registry::Registry;

verus! {

/// What became of one inbound frame.
#[derive(Debug, PartialEq, Eq, Structural)]
pub enum RouteOutcome {
    /// The frame parsed and its addressee was registered: the text was
    /// pushed to the addressee's handle.
    Delivered,
    /// The frame parsed but its addressee was not registered: dropped
    /// silently; not an error.
    NoRecipient,
    /// The frame did not parse as a signaling message: dropped silently; the
    /// connection stays open.
    Malformed,
}

/// The registry contents after one inbound frame `text` is handled against
/// the contents `m`: delivery appends the original text to the addressee's
/// queue; everything else changes nothing.
pub open spec fn route_result(
    m: Map<Seq<char>, Seq<Seq<char>>>,
    text: Seq<char>,
) -> Map<Seq<char>, Seq<Seq<char>>> {
    match parse_of(text) {
        Option::None => m,
        Option::Some(ft) => if m.dom().contains(ft.1) {
            m.insert(ft.1, m[ft.1].push(text))
        } else {
            m
        },
    }
}

/// The outcome reported for one inbound frame `text` handled against the
/// contents `m`.
pub open spec fn route_outcome(
    m: Map<Seq<char>, Seq<Seq<char>>>,
    text: Seq<char>,
) -> RouteOutcome {
    match parse_of(text) {
        Option::None => RouteOutcome::Malformed,
        Option::Some(ft) => if m.dom().contains(ft.1) {
            RouteOutcome::Delivered
        } else {
            RouteOutcome::NoRecipient
        },
    }
}

/// Forward `text` to the connection registered under `to`, if any: a
/// fire-and-forget push of the original text, never a re-encoding. An
/// unknown addressee is a silent drop, not an error.
pub fn forward(reg: &mut Registry, to: &String, text: &String) -> (r: RouteOutcome)
    requires
        old(reg).wf(),
    ensures
        final(reg).wf(),
        old(reg)@.dom().contains(to@) ==> final(reg)@ == old(reg)@.insert(
            to@,
            old(reg)@[to@].push(text@),
        ) && r == RouteOutcome::Delivered,
        !old(reg)@.dom().contains(to@) ==> final(reg)@ == old(reg)@ && r
            == RouteOutcome::NoRecipient,
{
    if reg.push_to(to, text) {
        RouteOutcome::Delivered
    } else {
        RouteOutcome::NoRecipient
    }
}

} // verus!
