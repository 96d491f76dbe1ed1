//! The guarantees of the relay, stated and proved over the models that the
//! operations' contracts use: the registry's map view and the routing spec.

use vstd::prelude::*;
use crate::message::{parse_of, welcome_of};
use crate::registry::Registry;
use crate::router::{route_outcome, route_result, RouteOutcome};

verus! {

/// Uniqueness: the identifiers of the currently registered connections are
/// pairwise distinct — a well-formed registry never holds two entries with
/// the same identifier, whichever way the pair is ordered.
pub proof fn lemma_registered_ids_distinct(r: Registry, i: int, j: int)
    requires
        r.wf(),
        0 <= i < r.entries@.len(),
        0 <= j < r.entries@.len(),
        i != j,
    ensures
        r.entries@[i].id@ != r.entries@[j].id@,
{
}

/// Register-before-use: in any state reached right after a session with
/// identifier `x` was activated (its entry inserted and its greeting queued,
/// as `Session::start` ensures), a well-formed frame addressed to `x` is
/// delivered: the outcome is `Delivered` and the original text lands on `x`'s
/// handle, right after the greeting.
pub proof fn lemma_register_before_use(
    m: Map<Seq<char>, Seq<Seq<char>>>,
    x: Seq<char>,
    f: Seq<char>,
    t: Seq<char>,
)
    requires
        parse_of(t) == Some((f, x)),
    ensures
        route_outcome(m.insert(x, seq![welcome_of(x)]), t) == RouteOutcome::Delivered,
        route_result(m.insert(x, seq![welcome_of(x)]), t)[x] == seq![welcome_of(x), t],
{
    let m1 = m.insert(x, seq![welcome_of(x)]);
    assert(m1.dom().contains(x));
    assert(seq![welcome_of(x)].push(t) =~= seq![welcome_of(x), t]);
}

/// Unregister-on-close: once the entry for `x` is removed (as
/// `Session::close` ensures), a frame addressed to `x` is a silent no-op:
/// nothing is delivered anywhere and the registry is left unchanged.
pub proof fn lemma_unregister_on_close(
    m: Map<Seq<char>, Seq<Seq<char>>>,
    x: Seq<char>,
    f: Seq<char>,
    t: Seq<char>,
)
    requires
        parse_of(t) == Some((f, x)),
    ensures
        route_outcome(m.remove(x), t) == RouteOutcome::NoRecipient,
        route_result(m.remove(x), t) == m.remove(x),
{
    assert(!m.remove(x).dom().contains(x));
}

/// Pass-through fidelity: a delivered frame reaches its addressee's handle
/// exactly as it arrived — the queue for `y` grows by the original text `t`,
/// and every other queue is untouched.
pub proof fn lemma_pass_through_fidelity(
    m: Map<Seq<char>, Seq<Seq<char>>>,
    y: Seq<char>,
    f: Seq<char>,
    t: Seq<char>,
)
    requires
        parse_of(t) == Some((f, y)),
        m.dom().contains(y),
    ensures
        route_result(m, t)[y] == m[y].push(t),
        route_result(m, t)[y].last() == t,
        forall|k: Seq<char>| m.dom().contains(k) && k != y ==> #[trigger] route_result(m, t)[k]
            == m[k],
        route_result(m, t).dom() == m.dom(),
{
    assert(route_result(m, t).dom() =~= m.dom());
}

/// Malformed-input resilience: text that does not parse as a signaling
/// message changes nothing — no frame is forwarded to anyone and the registry
/// is left as it was. The handling session is untouched by construction
/// (`Session::handle_frame` borrows it immutably), so the connection stays
/// open.
pub proof fn lemma_malformed_resilience(m: Map<Seq<char>, Seq<Seq<char>>>, t: Seq<char>)
    requires
        parse_of(t) is None,
    ensures
        route_result(m, t) == m,
        route_outcome(m, t) == RouteOutcome::Malformed,
{
}

} // verus!
