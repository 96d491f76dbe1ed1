//! The process-wide directory of live connections.
//!
//! The registry maps a connection identifier to the outbound handle of the
//! connection that currently holds it. A handle is modelled as the queue of
//! text frames that have been pushed to the connection and not yet drained by
//! its transport. The registry is the single source of truth for "who is
//! currently reachable": an entry for an identifier exists exactly while a
//! session with that identifier is open.

use vstd::prelude::*;

verus! {

/// One live connection: its identifier and its outbound handle, the queue of
/// text frames pushed to it and not yet drained by the transport.
pub struct Entry {
    pub id: String,
    pub outbox: Vec<String>,
}

/// The view of an outbound queue: the queued frames, oldest first.
pub open spec fn msgs_of(v: Seq<String>) -> Seq<Seq<char>> {
    v.map_values(|m: String| m@)
}

/// The directory as a mathematical map from identifier to queued frames.
/// Later entries shadow earlier ones with the same identifier; under
/// `distinct_ids` there is nothing to shadow and the order of the entries is
/// irrelevant.
pub open spec fn map_of(s: Seq<Entry>) -> Map<Seq<char>, Seq<Seq<char>>>
    decreases s.len(),
{
    if s.len() == 0 {
        Map::empty()
    } else {
        map_of(s.drop_last()).insert(s.last().id@, msgs_of(s.last().outbox@))
    }
}

/// Some entry carries the identifier `k`.
pub open spec fn has_id(s: Seq<Entry>, k: Seq<char>) -> bool {
    exists|i: int| 0 <= i < s.len() && #[trigger] s[i].id@ == k
}

/// At most one entry per identifier.
pub open spec fn distinct_ids(s: Seq<Entry>) -> bool {
    forall|i: int, j: int| 0 <= i < j < s.len() ==> s[i].id@ != s[j].id@
}

/// The directory. Entries are kept in a vector searched linearly; the order
/// of the entries carries no meaning.
pub struct Registry {
    pub entries: Vec<Entry>,
}

impl Registry {
    /// Well-formed: identifiers are pairwise distinct, so the map view loses
    /// no entry.
    pub open spec fn wf(self) -> bool {
        distinct_ids(self.entries@)
    }

    pub open spec fn view(self) -> Map<Seq<char>, Seq<Seq<char>>> {
        map_of(self.entries@)
    }

    pub fn new() -> (r: Registry)
        ensures
            r.wf(),
            r@ == Map::<Seq<char>, Seq<Seq<char>>>::empty(),
    {
        Registry { entries: Vec::new() }
    }

    /// The index of the entry for `id`, if one is registered.
    fn find(&self, id: &String) -> (r: Option<usize>)
        ensures
            match r {
                Some(i) => i < self.entries@.len() && self.entries@[i as int].id@ == id@,
                None => forall|i: int| 0 <= i < self.entries@.len() ==> self.entries@[i].id@ != id@,
            },
    {
        let mut i: usize = 0;
        while i < self.entries.len()
            invariant
                i <= self.entries@.len(),
                forall|j: int| 0 <= j < i ==> self.entries@[j].id@ != id@,
            decreases self.entries@.len() - i,
        {
            if self.entries[i].id == *id {
                return Some(i);
            }
            i = i + 1;
        }
        None
    }

    /// Whether `id` is currently registered (the lookup of the Router, with
    /// the handle itself left in place).
    pub fn contains(&self, id: &String) -> (r: bool)
        ensures
            r == self@.dom().contains(id@),
    {
        proof {
            lemma_map_of_dom(self.entries@);
        }
        self.find(id).is_some()
    }

    /// Insert or replace the entry for `id`, with a fresh, empty outbound
    /// queue. Replacement is the accepted last-writer-wins resolution of an
    /// identifier collision.
    pub fn register(&mut self, id: String)
        requires
            old(self).wf(),
        ensures
            final(self).wf(),
            final(self)@ == old(self)@.insert(id@, Seq::<Seq<char>>::empty()),
    {
        let ghost s0 = self.entries@;
        match self.find(&id) {
            Some(i) => {
                let _ = self.entries.remove(i);
                proof {
                    lemma_map_of_remove(s0, i as int);
                    lemma_distinct_remove(s0, i as int);
                    lemma_absent_after_remove(s0, i as int);
                }
            },
            None => {},
        }
        let ghost s1 = self.entries@;
        self.entries.push(Entry { id, outbox: Vec::new() });
        proof {
            lemma_map_of_push(s1, self.entries@.last());
            assert(msgs_of(Seq::<String>::empty()) =~= Seq::<Seq<char>>::empty());
            lemma_distinct_push(s1, self.entries@.last());
            assert(map_of(self.entries@) =~= old(self)@.insert(id@, Seq::<Seq<char>>::empty()));
        }
    }

    /// Remove the entry for `id` if present; a no-op, not an error, if it is
    /// absent.
    pub fn unregister(&mut self, id: &String)
        requires
            old(self).wf(),
        ensures
            final(self).wf(),
            final(self)@ == old(self)@.remove(id@),
    {
        let ghost s0 = self.entries@;
        match self.find(id) {
            Some(i) => {
                let _ = self.entries.remove(i);
                proof {
                    lemma_map_of_remove(s0, i as int);
                    lemma_distinct_remove(s0, i as int);
                }
            },
            None => {
                proof {
                    lemma_map_of_dom(s0);
                    assert(!has_id(s0, id@));
                    assert(map_of(s0).remove(id@) =~= map_of(s0));
                }
            },
        }
    }

    /// Append `text` to the outbound queue of the entry for `to`, if one is
    /// registered; report whether it was. The queued text is the argument
    /// itself, never a re-encoding.
    pub fn push_to(&mut self, to: &String, text: &String) -> (r: bool)
        requires
            old(self).wf(),
        ensures
            final(self).wf(),
            r == old(self)@.dom().contains(to@),
            r ==> final(self)@ == old(self)@.insert(to@, old(self)@[to@].push(text@)),
            !r ==> final(self)@ == old(self)@,
    {
        let ghost s0 = self.entries@;
        proof {
            lemma_map_of_dom(s0);
        }
        match self.find(to) {
            Some(i) => {
                proof {
                    lemma_map_of_at(s0, i as int);
                    lemma_map_of_remove(s0, i as int);
                    lemma_distinct_remove(s0, i as int);
                    lemma_absent_after_remove(s0, i as int);
                }
                let mut e = self.entries.remove(i);
                let ghost v0 = e.outbox@;
                e.outbox.push(text.clone());
                proof {
                    assert(msgs_of(e.outbox@) =~= msgs_of(v0).push(text@));
                }
                let ghost s1 = self.entries@;
                self.entries.push(e);
                proof {
                    lemma_map_of_push(s1, self.entries@.last());
                    lemma_distinct_push(s1, self.entries@.last());
                    assert(map_of(self.entries@) =~= old(self)@.insert(
                        to@,
                        old(self)@[to@].push(text@),
                    ));
                }
                true
            },
            None => false,
        }
    }

    /// Drain the outbound queue of the entry for `id`: the transport's side
    /// of the handle. Returns the queued frames, oldest first, and leaves the
    /// entry registered with an empty queue; returns nothing for an absent
    /// identifier.
    pub fn take_outbox(&mut self, id: &String) -> (r: Vec<String>)
        requires
            old(self).wf(),
        ensures
            final(self).wf(),
            old(self)@.dom().contains(id@) ==> msgs_of(r@) == old(self)@[id@]
                && final(self)@ == old(self)@.insert(id@, Seq::<Seq<char>>::empty()),
            !old(self)@.dom().contains(id@) ==> r@.len() == 0 && final(self)@ == old(self)@,
    {
        let ghost s0 = self.entries@;
        proof {
            lemma_map_of_dom(s0);
        }
        match self.find(id) {
            Some(i) => {
                proof {
                    lemma_map_of_at(s0, i as int);
                    lemma_map_of_remove(s0, i as int);
                    lemma_distinct_remove(s0, i as int);
                    lemma_absent_after_remove(s0, i as int);
                }
                let e = self.entries.remove(i);
                let ghost s1 = self.entries@;
                self.entries.push(Entry { id: e.id, outbox: Vec::new() });
                proof {
                    lemma_map_of_push(s1, self.entries@.last());
                    assert(msgs_of(Seq::<String>::empty()) =~= Seq::<Seq<char>>::empty());
                    lemma_distinct_push(s1, self.entries@.last());
                    assert(map_of(self.entries@) =~= old(self)@.insert(
                        id@,
                        Seq::<Seq<char>>::empty(),
                    ));
                }
                e.outbox
            },
            None => Vec::new(),
        }
    }
}

/// The domain of the map view is exactly the set of registered identifiers.
proof fn lemma_map_of_dom(s: Seq<Entry>)
    ensures
        forall|k: Seq<char>| #[trigger] map_of(s).dom().contains(k) <==> has_id(s, k),
    decreases s.len(),
{
    if s.len() == 0 {
    } else {
        let dl = s.drop_last();
        lemma_map_of_dom(dl);
        assert forall|k: Seq<char>| #[trigger] map_of(s).dom().contains(k) <==> has_id(s, k) by {
            if map_of(s).dom().contains(k) {
                if k == s.last().id@ {
                    assert(s[s.len() - 1].id@ == k);
                    assert(has_id(s, k));
                } else {
                    assert(map_of(s) == map_of(dl).insert(s.last().id@, msgs_of(s.last().outbox@)));
                    assert(map_of(dl).dom().contains(k));
                    assert(has_id(dl, k));
                    let i = choose|i: int| 0 <= i < dl.len() && #[trigger] dl[i].id@ == k;
                    assert(dl[i] == s[i]);
                    assert(s[i].id@ == k);
                    assert(has_id(s, k));
                }
            }
            if has_id(s, k) {
                let i = choose|i: int| 0 <= i < s.len() && #[trigger] s[i].id@ == k;
                if i < s.len() - 1 {
                    assert(dl[i] == s[i]);
                    assert(dl[i].id@ == k);
                    assert(has_id(dl, k));
                    assert(map_of(dl).dom().contains(k));
                    assert(map_of(s).dom().contains(k));
                } else {
                    assert(k == s.last().id@);
                    assert(map_of(s).dom().contains(k));
                }
            }
        }
    }
}

/// Under distinct identifiers, the map view of an entry is its own outbox.
proof fn lemma_map_of_at(s: Seq<Entry>, i: int)
    requires
        distinct_ids(s),
        0 <= i < s.len(),
    ensures
        map_of(s).dom().contains(s[i].id@),
        map_of(s)[s[i].id@] == msgs_of(s[i].outbox@),
    decreases s.len(),
{
    if i == s.len() - 1 {
    } else {
        let dl = s.drop_last();
        assert(dl[i] == s[i]);
        lemma_map_of_at(dl, i);
        assert(s[i].id@ != s.last().id@);
    }
}

/// Removing an entry removes exactly its identifier from the map view.
proof fn lemma_map_of_remove(s: Seq<Entry>, i: int)
    requires
        distinct_ids(s),
        0 <= i < s.len(),
    ensures
        map_of(s.remove(i)) == map_of(s).remove(s[i].id@),
    decreases s.len(),
{
    let k = s[i].id@;
    if i == s.len() - 1 {
        let dl = s.drop_last();
        assert(s.remove(i) =~= dl);
        lemma_map_of_dom(dl);
        assert forall|j: int| 0 <= j < dl.len() implies #[trigger] dl[j].id@ != k by {
            assert(s[j].id@ != s[i].id@);
        }
        assert(!has_id(dl, k));
        assert(map_of(s).remove(k) =~= map_of(dl));
    } else {
        let dl = s.drop_last();
        let last = s.last();
        assert(s.remove(i).drop_last() =~= dl.remove(i));
        assert(s.remove(i).last() == last);
        lemma_map_of_remove(dl, i);
        assert(s[i].id@ != last.id@);
        assert(map_of(dl).remove(k).insert(last.id@, msgs_of(last.outbox@)) =~= map_of(dl).insert(
            last.id@,
            msgs_of(last.outbox@),
        ).remove(k));
        assert(map_of(s.remove(i))
            == map_of(dl.remove(i)).insert(s.remove(i).last().id@, msgs_of(s.remove(i).last().outbox@)));
    }
}

/// Appending an entry inserts exactly its identifier into the map view.
proof fn lemma_map_of_push(s: Seq<Entry>, e: Entry)
    ensures
        map_of(s.push(e)) == map_of(s).insert(e.id@, msgs_of(e.outbox@)),
{
    assert(s.push(e).drop_last() =~= s);
    assert(s.push(e).last() == e);
}

/// Distinctness survives the removal of any entry.
proof fn lemma_distinct_remove(s: Seq<Entry>, i: int)
    requires
        distinct_ids(s),
        0 <= i < s.len(),
    ensures
        distinct_ids(s.remove(i)),
{
    let t = s.remove(i);
    assert forall|a: int, b: int| 0 <= a < b < t.len() implies t[a].id@ != t[b].id@ by {
        let a0 = if a < i { a } else { a + 1 };
        let b0 = if b < i { b } else { b + 1 };
        assert(t[a] == s[a0]);
        assert(t[b] == s[b0]);
    }
}

/// After the entry at `i` is removed, no remaining entry carries its
/// identifier.
proof fn lemma_absent_after_remove(s: Seq<Entry>, i: int)
    requires
        distinct_ids(s),
        0 <= i < s.len(),
    ensures
        forall|j: int| 0 <= j < s.remove(i).len() ==> #[trigger] s.remove(i)[j].id@ != s[i].id@,
{
    let t = s.remove(i);
    assert forall|j: int| 0 <= j < t.len() implies #[trigger] t[j].id@ != s[i].id@ by {
        let j0 = if j < i { j } else { j + 1 };
        assert(t[j] == s[j0]);
    }
}

/// Appending an entry whose identifier no current entry carries keeps the
/// identifiers distinct.
proof fn lemma_distinct_push(s: Seq<Entry>, e: Entry)
    requires
        distinct_ids(s),
        forall|j: int| 0 <= j < s.len() ==> #[trigger] s[j].id@ != e.id@,
    ensures
        distinct_ids(s.push(e)),
{
    let t = s.push(e);
    assert forall|a: int, b: int| 0 <= a < b < t.len() implies t[a].id@ != t[b].id@ by {
        assert(t[a] == s[a]);
        if b < s.len() {
            assert(t[b] == s[b]);
        } else {
            assert(t[b] == e);
        }
    }
}

} // verus!
