use crate::snapshot::{Snapshot, MAX_TENTHS};
use vstd::prelude::*;

verus! {

// ---------------------------------------------------------------------------
// The broadcast hub: the single fan-out point between the sampler and the
// sessions. Every subscriber owns one slot of bounded depth 1: a publish
// overwrites whatever snapshot is still pending there (newest wins, a slow
// subscriber just skips ahead), so the publisher never blocks and no queue
// grows. A late subscriber starts with an empty slot: no replay.
// ---------------------------------------------------------------------------
/// The model of one subscriber slot: `Vacant` (no subscriber), `Waiting`
/// (subscribed, nothing pending) or `Ready` (subscribed, the per-core
/// readings of the pending snapshot).
pub enum SlotModel {
    Vacant,
    Waiting,
    Ready(Seq<u32>),
}

/// Whether the slot has a subscriber.
pub open spec fn slot_subscribed(m: SlotModel) -> bool {
    !(m is Vacant)
}

/// Whether a pending snapshot in the slot is well formed.
pub open spec fn slot_ok(m: SlotModel) -> bool {
    match m {
        SlotModel::Ready(v) => forall|t: int| 0 <= t < v.len() ==> v[t] <= MAX_TENTHS,
        _ => true,
    }
}

/// Hub invariant: every pending snapshot is well formed.
pub open spec fn hub_inv(h: Seq<SlotModel>) -> bool {
    forall|i: int| 0 <= i < h.len() ==> slot_ok(h[i])
}

/// The number of subscribed slots.
pub open spec fn sub_count(h: Seq<SlotModel>) -> nat
    decreases h.len(),
{
    if h.len() == 0 {
        0
    } else {
        sub_count(h.drop_last()) + (if slot_subscribed(h.last()) {
            1nat
        } else {
            0nat
        })
    }
}

/// The slot a new subscriber takes: the first vacant one, or `h.len()` if
/// every slot is occupied and a new one must be added.
pub open spec fn first_vacant(h: Seq<SlotModel>) -> int
    decreases h.len(),
{
    if h.len() == 0 {
        0
    } else if h[0] is Vacant {
        0
    } else {
        1 + first_vacant(h.drop_first())
    }
}

/// What subscribing does: the new subscriber gets the first vacant slot
/// (or a fresh one), empty — a late subscriber never sees snapshots
/// published before it subscribed.
pub open spec fn subscribe_t(h: Seq<SlotModel>) -> (Seq<SlotModel>, int) {
    let i = first_vacant(h);
    if i < h.len() {
        (h.update(i, SlotModel::Waiting), i)
    } else {
        (h.push(SlotModel::Waiting), h.len() as int)
    }
}

/// What publishing the readings `v` does: every subscribed slot now holds
/// exactly `v`, overwriting anything still pending; vacant slots stay
/// vacant. The publisher never waits for anyone.
pub open spec fn publish_t(h: Seq<SlotModel>, v: Seq<u32>) -> Seq<SlotModel> {
    Seq::new(
        h.len(),
        |i: int|
            if h[i] is Vacant {
                SlotModel::Vacant
            } else {
                SlotModel::Ready(v)
            },
    )
}

/// What receiving on slot `i` does: it takes the pending snapshot, if any,
/// and leaves the slot empty; no other slot is involved.
pub open spec fn recv_t(h: Seq<SlotModel>, i: int) -> (Seq<SlotModel>, Option<Seq<u32>>) {
    match h[i] {
        SlotModel::Ready(v) => (h.update(i, SlotModel::Waiting), Some(v)),
        _ => (h, None),
    }
}

/// What unsubscribing slot `i` does: the slot becomes vacant again.
pub open spec fn unsubscribe_t(h: Seq<SlotModel>, i: int) -> Seq<SlotModel> {
    h.update(i, SlotModel::Vacant)
}

/// One subscriber slot as stored.
enum Slot {
    Vacant,
    Waiting,
    Ready(Snapshot),
}

/// The model of a stored slot.
spec fn slot_model(s: Slot) -> SlotModel {
    match s {
        Slot::Vacant => SlotModel::Vacant,
        Slot::Waiting => SlotModel::Waiting,
        Slot::Ready(sn) => SlotModel::Ready(sn@),
    }
}

/// The broadcast hub. Created once at startup; the sampler publishes into
/// it and every session subscribes to it.
pub struct Hub {
    slots: Vec<Slot>,
}

impl Hub {
    /// The model of the hub: its slots, in order.
    pub closed spec fn view(&self) -> Seq<SlotModel> {
        self.slots@.map(|i: int, s: Slot| slot_model(s))
    }

    /// A fresh hub with no subscribers.
    pub fn new() -> (h: Hub)
        ensures
            h@ =~= Seq::<SlotModel>::empty(),
            hub_inv(h@),
    {
        let h = Hub { slots: Vec::new() };
        proof {
            assert(h@ =~= Seq::<SlotModel>::empty());
        }
        h
    }

    /// Adds an independent subscriber and returns its slot id, exactly as
    /// `subscribe_t` describes: first vacant slot or a fresh one, starting
    /// empty. No other slot is touched.
    pub fn subscribe(&mut self) -> (id: usize)
        ensures
            final(self)@ == subscribe_t(old(self)@).0,
            id as int == subscribe_t(old(self)@).1,
            id as int <= old(self)@.len(),
            id < final(self)@.len(),
            final(self)@[id as int] == SlotModel::Waiting,
            forall|j: int|
                0 <= j < old(self)@.len() && j != id as int ==> final(self)@[j] == old(self)@[j],
            hub_inv(old(self)@) ==> hub_inv(final(self)@),
    {
        let ghost h0 = self@;
        let n = self.slots.len();
        let mut i: usize = 0;
        while i < n
            invariant
                n == self.slots@.len(),
                i <= n,
                self.slots@ == old(self).slots@,
                h0 == self@,
                h0.len() == n,
                forall|j: int| 0 <= j < i as int ==> !(self@[j] is Vacant),
            decreases n - i,
        {
            let vacant = match &self.slots[i] {
                Slot::Vacant => true,
                _ => false,
            };
            if vacant {
                proof {
                    lemma_first_vacant_at(h0, i as int);
                }
                self.slots[i] = Slot::Waiting;
                proof {
                    assert(self@ =~= subscribe_t(h0).0);
                }
                return i;
            }
            i = i + 1;
        }
        proof {
            lemma_first_vacant_at(h0, n as int);
        }
        self.slots.push(Slot::Waiting);
        proof {
            assert(self@ =~= subscribe_t(h0).0);
        }
        n
    }

    /// Publishes one snapshot to every current subscriber, exactly as
    /// `publish_t` describes: each subscribed slot now holds these readings
    /// (anything still pending is overwritten), vacant slots stay vacant.
    /// With zero subscribers the snapshot is simply discarded.
    pub fn publish(&mut self, s: &Snapshot)
        requires
            s.wf(),
        ensures
            final(self)@ == publish_t(old(self)@, s@),
            final(self)@.len() == old(self)@.len(),
            forall|j: int|
                0 <= j < old(self)@.len() && slot_subscribed(old(self)@[j]) ==> final(self)@[j]
                    == SlotModel::Ready(s@),
            forall|j: int|
                0 <= j < old(self)@.len() && !slot_subscribed(old(self)@[j]) ==> final(self)@[j]
                    == old(self)@[j],
            hub_inv(final(self)@),
    {
        let ghost h0 = self@;
        let n = self.slots.len();
        let mut i: usize = 0;
        while i < n
            invariant
                s.wf(),
                n == self.slots@.len(),
                n == old(self).slots@.len(),
                h0 == old(self)@,
                h0.len() == n,
                i <= n,
                forall|j: int| 0 <= j < i as int ==> self@[j] == publish_t(h0, s@)[j],
                forall|j: int| i as int <= j < n ==> self.slots@[j] == old(self).slots@[j],
            decreases n - i,
        {
            let ghost pre = self.slots@;
            let ghost vpre = self@;
            let vacant = match &self.slots[i] {
                Slot::Vacant => true,
                _ => false,
            };
            if !vacant {
                self.slots[i] = Slot::Ready(s.duplicate());
            }
            proof {
                assert(h0[i as int] == slot_model(old(self).slots@[i as int]));
                assert(vacant == (h0[i as int] is Vacant));
                assert forall|j: int| 0 <= j < i as int + 1 implies self@[j] == publish_t(
                    h0,
                    s@,
                )[j] by {
                    assert(self@[j] == slot_model(self.slots@[j]));
                    if j < i as int {
                        assert(self.slots@[j] == pre[j]);
                        assert(vpre[j] == publish_t(h0, s@)[j]);
                        assert(vpre[j] == slot_model(pre[j]));
                    }
                }
            }
            i = i + 1;
        }
        proof {
            assert(self@ =~= publish_t(h0, s@));
        }
    }

    /// Takes the pending snapshot of subscriber `id`, if any, exactly as
    /// `recv_t` describes; the slot is empty afterwards and no other slot
    /// is touched. `None` only means nothing is pending yet.
    pub fn recv(&mut self, id: usize) -> (r: Option<Snapshot>)
        requires
            id < old(self)@.len(),
            slot_subscribed(old(self)@[id as int]),
            hub_inv(old(self)@),
        ensures
            final(self)@ == recv_t(old(self)@, id as int).0,
            match r {
                Option::Some(sn) => recv_t(old(self)@, id as int).1 == Some(sn@) && sn.wf(),
                Option::None => recv_t(old(self)@, id as int).1 is None,
            },
            hub_inv(final(self)@),
            forall|j: int|
                0 <= j < old(self)@.len() && j != id as int ==> final(self)@[j] == old(self)@[j],
    {
        let ghost h0 = self@;
        let taken: Option<Snapshot> = match &self.slots[id] {
            Slot::Ready(sn) => Some(sn.duplicate()),
            _ => None,
        };
        match taken {
            Some(out) => {
                self.slots[id] = Slot::Waiting;
                proof {
                    assert(self@ =~= recv_t(h0, id as int).0);
                    assert(slot_ok(h0[id as int]));
                }
                Some(out)
            },
            None => {
                proof {
                    assert(self@ =~= recv_t(h0, id as int).0);
                }
                None
            },
        }
    }

    /// Releases subscriber `id`: its slot becomes vacant again, exactly as
    /// `unsubscribe_t` describes. No other slot is touched, so every other
    /// subscription keeps delivering as before.
    pub fn unsubscribe(&mut self, id: usize)
        requires
            id < old(self)@.len(),
        ensures
            final(self)@ == unsubscribe_t(old(self)@, id as int),
            forall|j: int|
                0 <= j < old(self)@.len() && j != id as int ==> final(self)@[j] == old(self)@[j],
            hub_inv(old(self)@) ==> hub_inv(final(self)@),
    {
        let ghost h0 = self@;
        self.slots[id] = Slot::Vacant;
        proof {
            assert(self@ =~= unsubscribe_t(h0, id as int));
        }
    }

    /// Whether `id` names a current subscriber.
    pub fn is_subscribed(&self, id: usize) -> (b: bool)
        ensures
            b == (id < self@.len() && slot_subscribed(self@[id as int])),
    {
        if id < self.slots.len() {
            proof {
                assert(self@[id as int] == slot_model(self.slots@[id as int]));
            }
            match &self.slots[id] {
                Slot::Vacant => false,
                _ => true,
            }
        } else {
            false
        }
    }

    /// The number of current subscribers.
    pub fn subscriber_count(&self) -> (n: usize)
        ensures
            n as nat == sub_count(self@),
    {
        let len = self.slots.len();
        let mut i: usize = 0;
        let mut acc: usize = 0;
        while i < len
            invariant
                len == self.slots@.len(),
                i <= len,
                acc as nat == sub_count(self@.take(i as int)),
                acc <= i,
            decreases len - i,
        {
            let subscribed = match &self.slots[i] {
                Slot::Vacant => false,
                _ => true,
            };
            proof {
                assert(self@.take(i as int + 1).drop_last() =~= self@.take(i as int));
                assert(self@.take(i as int + 1).last() == self@[i as int]);
            }
            if subscribed {
                acc = acc + 1;
            }
            i = i + 1;
        }
        proof {
            assert(self@.take(len as int) =~= self@);
        }
        acc
    }
}

// ---------------------------------------------------------------------------
// Counting lemmas and the laws of the hub.
// ---------------------------------------------------------------------------
/// Updating slot `i` changes the subscriber count exactly by the difference
/// between the new and the old occupancy of that slot.
proof fn lemma_sub_count_update(h: Seq<SlotModel>, i: int, m: SlotModel)
    requires
        0 <= i < h.len(),
    ensures
        sub_count(h.update(i, m)) + (if slot_subscribed(h[i]) {
            1nat
        } else {
            0nat
        }) == sub_count(h) + (if slot_subscribed(m) {
            1nat
        } else {
            0nat
        }),
    decreases h.len(),
{
    let hu = h.update(i, m);
    if i == h.len() - 1 {
        assert(hu.drop_last() =~= h.drop_last());
        assert(hu.last() == m);
    } else {
        assert(hu.drop_last() =~= h.drop_last().update(i, m));
        assert(hu.last() == h.last());
        lemma_sub_count_update(h.drop_last(), i, m);
    }
}

/// Adding a slot adds its occupancy to the subscriber count.
proof fn lemma_sub_count_push(h: Seq<SlotModel>, m: SlotModel)
    ensures
        sub_count(h.push(m)) == sub_count(h) + (if slot_subscribed(m) {
            1nat
        } else {
            0nat
        }),
{
    assert(h.push(m).drop_last() =~= h);
    assert(h.push(m).last() == m);
}

/// The first vacant slot is where the scan that found no earlier vacancy
/// stops.
proof fn lemma_first_vacant_at(h: Seq<SlotModel>, i: int)
    requires
        0 <= i <= h.len(),
        forall|j: int| 0 <= j < i ==> !(h[j] is Vacant),
        i == h.len() || h[i] is Vacant,
    ensures
        first_vacant(h) == i,
    decreases h.len(),
{
    if h.len() == 0 {
    } else if h[0] is Vacant {
    } else {
        lemma_first_vacant_at(h.drop_first(), i - 1);
    }
}

/// Subscribing adds exactly one subscriber.
pub proof fn lemma_subscribe_count(h: Seq<SlotModel>)
    ensures
        sub_count(subscribe_t(h).0) == sub_count(h) + 1,
{
    let i = first_vacant(h);
    lemma_first_vacant_props(h);
    if i < h.len() {
        lemma_sub_count_update(h, i, SlotModel::Waiting);
    } else {
        lemma_sub_count_push(h, SlotModel::Waiting);
    }
}

/// The first vacant slot lies in the hub and is indeed vacant, unless every
/// slot is occupied.
proof fn lemma_first_vacant_props(h: Seq<SlotModel>)
    ensures
        0 <= first_vacant(h) <= h.len(),
        first_vacant(h) < h.len() ==> h[first_vacant(h)] is Vacant,
    decreases h.len(),
{
    if h.len() > 0 && !(h[0] is Vacant) {
        lemma_first_vacant_props(h.drop_first());
    }
}

/// Unsubscribing a subscribed slot removes exactly one subscriber.
pub proof fn lemma_unsubscribe_count(h: Seq<SlotModel>, i: int)
    requires
        0 <= i < h.len(),
        slot_subscribed(h[i]),
    ensures
        sub_count(unsubscribe_t(h, i)) + 1 == sub_count(h),
{
    lemma_sub_count_update(h, i, SlotModel::Vacant);
}

/// Publishing never changes who is subscribed, so the subscriber count is
/// untouched.
pub proof fn lemma_publish_count(h: Seq<SlotModel>, v: Seq<u32>)
    ensures
        sub_count(publish_t(h, v)) == sub_count(h),
    decreases h.len(),
{
    let p = publish_t(h, v);
    if h.len() == 0 {
        assert(p =~= Seq::<SlotModel>::empty());
    } else {
        assert(p.drop_last() =~= publish_t(h.drop_last(), v));
        lemma_publish_count(h.drop_last(), v);
    }
}

/// One publish reaches all current subscribers: every subscribed slot holds
/// exactly the published readings afterwards, and an immediate receive on
/// any of those slots yields exactly them — never an older or corrupted
/// snapshot.
pub proof fn lemma_publish_delivers(h: Seq<SlotModel>, v: Seq<u32>, i: int)
    requires
        0 <= i < h.len(),
        slot_subscribed(h[i]),
    ensures
        publish_t(h, v)[i] == SlotModel::Ready(v),
        recv_t(publish_t(h, v), i).1 == Some(v),
{
}

/// Newest wins: when a second publish races ahead of a slow subscriber,
/// the earlier snapshot is overwritten and the subscriber receives the
/// strictly more recent one — never the older one.
pub proof fn lemma_overwrite_keeps_newest(h: Seq<SlotModel>, v1: Seq<u32>, v2: Seq<u32>, i: int)
    requires
        0 <= i < h.len(),
        slot_subscribed(h[i]),
    ensures
        recv_t(publish_t(publish_t(h, v1), v2), i).1 == Some(v2),
{
}

/// A slot with no subscriber receives nothing from a publish: it stays
/// vacant, untouched.
pub proof fn lemma_unsubscribed_receives_nothing(h: Seq<SlotModel>, v: Seq<u32>, i: int)
    requires
        0 <= i < h.len(),
        !slot_subscribed(h[i]),
    ensures
        publish_t(h, v)[i] == h[i],
        !slot_subscribed(publish_t(h, v)[i]),
{
}

/// Releasing one subscription leaves every other slot exactly as it was —
/// its occupancy, its pending snapshot and what it will receive next — and
/// returns the subscriber count to what it was before that subscriber
/// arrived.
pub proof fn lemma_release_isolated(h: Seq<SlotModel>, i: int, j: int)
    requires
        0 <= i < h.len(),
        0 <= j < h.len(),
        i != j,
        slot_subscribed(h[i]),
    ensures
        unsubscribe_t(h, i)[j] == h[j],
        recv_t(unsubscribe_t(h, i), j).1 == recv_t(h, j).1,
        sub_count(unsubscribe_t(h, i)) + 1 == sub_count(h),
{
    lemma_unsubscribe_count(h, i);
    assert(unsubscribe_t(h, i).update(j, SlotModel::Waiting) =~= unsubscribe_t(
        h.update(j, SlotModel::Waiting),
        i,
    ));
}

/// No leaked subscriptions: a subscribe followed by the release of the very
/// slot it returned brings the hub back to its exact previous state —
/// subscriber count and every slot included.
pub proof fn lemma_subscribe_unsubscribe_baseline(h: Seq<SlotModel>)
    ensures
        sub_count(unsubscribe_t(subscribe_t(h).0, subscribe_t(h).1)) == sub_count(h),
        first_vacant(h) < h.len() ==> unsubscribe_t(subscribe_t(h).0, subscribe_t(h).1) =~= h,
{
    lemma_subscribe_count(h);
    lemma_first_vacant_props(h);
    let (h1, i) = subscribe_t(h);
    lemma_unsubscribe_count(h1, i);
    if first_vacant(h) < h.len() {
        assert(unsubscribe_t(h1, i) =~= h);
    }
}

} // verus!
