//! Bounded telemetry history: keeps the most recent snapshots, dropping the
//! oldest once `max_snapshots` are held.
use vstd::prelude::*;
use std::collections::VecDeque;

verus! {

/// History of telemetry snapshots of type `T`, oldest first.
pub struct SnapshotHistory<T> {
    snapshots: VecDeque<T>,
    max_snapshots: usize,
}

/// Content after recording `s` into `h` with capacity `max`: the oldest
/// entry is dropped first when `max` or more are held.
pub open spec fn recorded<T>(h: Seq<T>, max: nat, s: T) -> Seq<T> {
    if h.len() >= max && h.len() > 0 {
        h.drop_first().push(s)
    } else {
        h.push(s)
    }
}

impl<T> View for SnapshotHistory<T> {
    type V = Seq<T>;

    closed spec fn view(&self) -> Seq<T> {
        self.snapshots@
    }
}

impl<T> SnapshotHistory<T> {
    /// Capacity.
    pub closed spec fn capacity(&self) -> nat {
        self.max_snapshots as nat
    }

    pub fn new(max_snapshots: usize) -> (h: Self)
        ensures
            h@ == Seq::<T>::empty(),
            h.capacity() == max_snapshots,
    {
        SnapshotHistory { snapshots: VecDeque::new(), max_snapshots }
    }

    pub fn max_snapshots(&self) -> (m: usize)
        ensures
            m == self.capacity(),
    {
        self.max_snapshots
    }

    pub fn len(&self) -> (n: usize)
        ensures
            n == self@.len(),
    {
        self.snapshots.len()
    }

    /// Records a snapshot, evicting the oldest when the history is full.
    pub fn record_snapshot(&mut self, snapshot: T)
        ensures
            final(self)@ == recorded(old(self)@, old(self).capacity(), snapshot),
            final(self).capacity() == old(self).capacity(),
    {
        if self.snapshots.len() >= self.max_snapshots {
            let _ = self.snapshots.pop_front();
        }
        self.snapshots.push_back(snapshot);
        proof {
            if old(self)@.len() > 0 && old(self)@.len() >= old(self).capacity() {
                assert(old(self)@.subrange(1, old(self)@.len() as int) == old(self)@.drop_first());
            }
        }
    }

    /// The most recent snapshot, if any.
    pub fn latest(&self) -> (s: Option<&T>)
        ensures
            s == (if self@.len() == 0 {
                None
            } else {
                Some(&self@.last())
            }),
    {
        let n = self.snapshots.len();
        if n == 0 {
            None
        } else {
            Some(&self.snapshots[n - 1])
        }
    }
}

/// Law: a history never holds more than its capacity (or one snapshot, for a
/// zero capacity), and recording keeps the most recent snapshots in order:
/// the new history is the old one followed by the new snapshot, minus the
/// oldest entry when that was needed to make room.
pub proof fn law_history_bounded<T>(h: Seq<T>, max: nat, s: T)
    requires
        h.len() <= (if max == 0 { 1 } else { max }),
    ensures
        recorded(h, max, s).len() <= (if max == 0 { 1 } else { max }),
        recorded(h, max, s).len() == (if h.len() + 1 <= max {
            h.len() + 1int
        } else if max == 0 {
            1int
        } else {
            max as int
        }),
        recorded(h, max, s).last() == s,
        recorded(h, max, s) == (h.push(s)).subrange(
            h.push(s).len() - recorded(h, max, s).len(),
            h.push(s).len() as int,
        ),
{
    let r = recorded(h, max, s);
    let hp = h.push(s);
    if h.len() >= max && h.len() > 0 {
        assert(r == hp.subrange(1, hp.len() as int));
    } else {
        assert(r == hp.subrange(0, hp.len() as int));
    }
}

} // verus!
