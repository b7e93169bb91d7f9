//! Live subscriptions: catch-up from a cursor, then tail.
//!
//! A subscriber first reads the stored events above its cursor, then
//! follows the broadcast of every later append, delivering an event
//! exactly when it belongs to the watched workspace and lies above the
//! highest sequence already delivered.  Catch-up exactness is
//! [`crate::store::lemma_events_after_index`]; tail exactness is
//! [`lemma_tail_complete`]: together, a subscriber that connects at
//! cursor `C` and keeps up receives exactly the events with
//! `seq_global > C`, ascending, with no duplicates and no gaps.

use vstd::prelude::*;

verus! {

use crate::event::{EventEnvelope, EventEnvelopeV};
use crate::text::str_eq;

/// The events of one workspace among a broadcast, in order.
pub open spec fn ws_events(b: Seq<EventEnvelopeV>, workspace_id: Seq<char>) -> Seq<EventEnvelopeV>
    decreases b.len(),
{
    if b.len() == 0 {
        Seq::empty()
    } else if b[0].workspace_id == workspace_id {
        seq![b[0]] + ws_events(b.drop_first(), workspace_id)
    } else {
        ws_events(b.drop_first(), workspace_id)
    }
}

/// What the tail loop delivers from a broadcast: each event of the
/// watched workspace above the cursor, which then advances to it.
pub open spec fn tail_deliver(
    b: Seq<EventEnvelopeV>,
    workspace_id: Seq<char>,
    last: int,
) -> Seq<EventEnvelopeV>
    decreases b.len(),
{
    if b.len() == 0 {
        Seq::empty()
    } else if b[0].workspace_id == workspace_id && b[0].seq_global > last {
        seq![b[0]] + tail_deliver(b.drop_first(), workspace_id, b[0].seq_global)
    } else {
        tail_deliver(b.drop_first(), workspace_id, last)
    }
}

/// The cursor after the tail loop has run over a broadcast.
pub open spec fn tail_last(b: Seq<EventEnvelopeV>, workspace_id: Seq<char>, last: int) -> int
    decreases b.len(),
{
    if b.len() == 0 {
        last
    } else if b[0].workspace_id == workspace_id && b[0].seq_global > last {
        tail_last(b.drop_first(), workspace_id, b[0].seq_global)
    } else {
        tail_last(b.drop_first(), workspace_id, last)
    }
}

/// Subscription completeness, tail half: where the broadcast carries a
/// workspace's events contiguously from `last + 1` in commit order —
/// which every append guarantees — the tail loop delivers exactly
/// those events: nothing is dropped, nothing repeats.
pub proof fn lemma_tail_complete(b: Seq<EventEnvelopeV>, workspace_id: Seq<char>, last: int)
    requires
        forall|k: int|
            0 <= k < ws_events(b, workspace_id).len() ==> (#[trigger] ws_events(
                b,
                workspace_id,
            )[k]).seq_global == last + k + 1,
    ensures
        tail_deliver(b, workspace_id, last) == ws_events(b, workspace_id),
    decreases b.len(),
{
    if b.len() > 0 {
        let rest = b.drop_first();
        if b[0].workspace_id == workspace_id {
            let w = ws_events(b, workspace_id);
            assert(w[0] == b[0]);
            assert(b[0].seq_global == last + 1);
            assert forall|k: int|
                0 <= k < ws_events(rest, workspace_id).len() implies (#[trigger] ws_events(
                rest,
                workspace_id,
            )[k]).seq_global == (last + 1) + k + 1 by {
                assert(w[k + 1] == ws_events(rest, workspace_id)[k]);
            }
            lemma_tail_complete(rest, workspace_id, last + 1);
            assert(tail_deliver(b, workspace_id, last) =~= ws_events(b, workspace_id));
        } else {
            lemma_tail_complete(rest, workspace_id, last);
        }
    }
}

/// A live subscription's position: the workspace it watches and the
/// highest sequence already delivered.
#[derive(Debug)]
pub struct SubscriptionCursor {
    workspace_id: String,
    last_seq: i64,
}

impl SubscriptionCursor {
    /// The watched workspace.
    pub closed spec fn workspace(self) -> Seq<char> {
        self.workspace_id@
    }

    /// The highest sequence already delivered.
    pub closed spec fn last(self) -> int {
        self.last_seq as int
    }

    /// A cursor at position `from`, before any delivery.
    pub fn new(workspace_id: String, from: i64) -> (r: SubscriptionCursor)
        ensures
            r.workspace() == workspace_id@,
            r.last() == from as int,
    {
        SubscriptionCursor { workspace_id, last_seq: from }
    }

    /// Advances over the catch-up batch: the cursor moves to the last
    /// emitted sequence, or stays where the batch is empty.
    pub fn after_catch_up(&mut self, events: &Vec<EventEnvelope>)
        requires
            events.deep_view().len() > 0 ==> events.deep_view().last().seq_global
                <= 0x7fff_ffff_ffff_ffff,
        ensures
            final(self).workspace() == old(self).workspace(),
            final(self).last() == if events.deep_view().len() == 0 {
                old(self).last()
            } else {
                events.deep_view().last().seq_global
            },
    {
        if events.len() > 0 {
            proof {
                assert(events.deep_view().last() == events@[events@.len() - 1]@);
            }
            self.last_seq = events[events.len() - 1].seq_global;
        }
    }

    /// Decides one broadcast event: deliver exactly when it belongs to
    /// the watched workspace and lies above the cursor, which then
    /// advances to it.
    pub fn on_event(&mut self, event: &EventEnvelope) -> (deliver: bool)
        ensures
            deliver == (event@.workspace_id == old(self).workspace() && event@.seq_global > old(
                self,
            ).last()),
            final(self).workspace() == old(self).workspace(),
            final(self).last() == if deliver {
                event@.seq_global
            } else {
                old(self).last()
            },
    {
        if str_eq(event.workspace_id.as_str(), self.workspace_id.as_str())
            && event.seq_global > self.last_seq {
            self.last_seq = event.seq_global;
            true
        } else {
            false
        }
    }

    /// Runs the tail loop over a batch of broadcast events, returning
    /// what is delivered, in order.
    pub fn drain(&mut self, events: &Vec<EventEnvelope>) -> (r: Vec<EventEnvelope>)
        ensures
            final(self).workspace() == old(self).workspace(),
            final(self).last() == tail_last(
                events.deep_view(),
                old(self).workspace(),
                old(self).last(),
            ),
            r.deep_view() == tail_deliver(
                events.deep_view(),
                old(self).workspace(),
                old(self).last(),
            ),
    {
        let ghost ev = events.deep_view();
        let ghost wid = self.workspace();
        let ghost last0 = self.last();
        let mut out: Vec<EventEnvelope> = Vec::new();
        let mut i: usize = 0;
        proof {
            assert(ev.skip(0) =~= ev);
            assert(out.deep_view() =~= Seq::<EventEnvelopeV>::empty());
        }
        while i < events.len()
            invariant
                i <= events@.len(),
                ev == events.deep_view(),
                ev.len() == events@.len(),
                self.workspace() == wid,
                tail_deliver(ev, wid, last0) == out.deep_view() + tail_deliver(
                    ev.skip(i as int),
                    wid,
                    self.last(),
                ),
                tail_last(ev, wid, last0) == tail_last(ev.skip(i as int), wid, self.last()),
            decreases events@.len() - i,
        {
            let ghost prev = out.deep_view();
            proof {
                assert(ev.skip(i as int)[0] == ev[i as int]);
                assert(ev.skip(i as int).drop_first() =~= ev.skip(i + 1));
                assert(ev[i as int] == events@[i as int]@);
            }
            let deliver = self.on_event(&events[i]);
            if deliver {
                let e = events[i].duplicate();
                out.push(e);
                proof {
                    assert(out.deep_view() =~= prev.push(ev[i as int]));
                    assert(prev + (seq![ev[i as int]] + tail_deliver(
                        ev.skip(i + 1),
                        wid,
                        self.last(),
                    )) =~= out.deep_view() + tail_deliver(ev.skip(i + 1), wid, self.last()));
                }
            }
            i += 1;
        }
        proof {
            assert(ev.skip(i as int).len() == 0);
            assert(out.deep_view() + tail_deliver(ev.skip(i as int), wid, self.last())
                =~= out.deep_view());
        }
        out
    }
}

} // verus!
