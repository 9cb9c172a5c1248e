//! The timer generation table.
//!
//! Cancelling a timer never removes its scheduled expiry event from the
//! queue; it bumps a generation counter for the `(endpoint, timer id)` key
//! instead. An expiry event is honored only when the generation it carries
//! still equals the table's current one, so any cancellation committed
//! between start and expiry silently invalidates the event. Keys are never
//! removed, which makes reuse of a timer id across cancel/restart cycles
//! safe.

use vstd::prelude::*;

use crate::event::{sat_inc, NodeId};

verus! {

struct TimerEntry {
    node: NodeId,
    timer_id: u32,
    generation: u64,
}

impl TimerEntry {
    spec fn key(self) -> (NodeId, u32) {
        (self.node, self.timer_id)
    }
}

spec fn has_key(s: Seq<TimerEntry>, k: (NodeId, u32)) -> bool {
    exists|i: int| 0 <= i < s.len() && (#[trigger] s[i]).key() == k
}

spec fn gen_at(s: Seq<TimerEntry>, k: (NodeId, u32)) -> u64 {
    s[choose|i: int| 0 <= i < s.len() && (#[trigger] s[i]).key() == k].generation
}

/// Maps each `(endpoint, timer id)` pair ever seen to its current
/// generation; pairs never started or cancelled are absent.
pub struct TimerTable {
    entries: Vec<TimerEntry>,
}

impl View for TimerTable {
    type V = Map<(NodeId, u32), u64>;

    closed spec fn view(&self) -> Map<(NodeId, u32), u64> {
        Map::new(|k: (NodeId, u32)| has_key(self.entries@, k), |k: (NodeId, u32)| gen_at(self.entries@, k))
    }
}

impl TimerTable {
    /// Each key appears at most once.
    pub closed spec fn wf(self) -> bool {
        forall|i: int, j: int|
            0 <= i < j < self.entries@.len() ==> (#[trigger] self.entries@[i]).key() != (
            #[trigger] self.entries@[j]).key()
    }

    pub fn new() -> (t: TimerTable)
        ensures
            t.wf(),
            t@ == Map::<(NodeId, u32), u64>::empty(),
    {
        let t = TimerTable { entries: Vec::new() };
        proof {
            assert(t@ =~= Map::<(NodeId, u32), u64>::empty());
        }
        t
    }

    fn position(&self, node: NodeId, timer_id: u32) -> (r: Option<usize>)
        requires
            self.wf(),
        ensures
            match r {
                Some(i) => 0 <= i < self.entries@.len() && self.entries@[i as int].key() == (
                node,
                timer_id,
                ),
                None => !has_key(self.entries@, (node, timer_id)),
            },
    {
        let mut i: usize = 0;
        while i < self.entries.len()
            invariant
                self.wf(),
                0 <= i <= self.entries@.len(),
                forall|j: int| 0 <= j < i ==> (#[trigger] self.entries@[j]).key() != (node, timer_id),
            decreases self.entries@.len() - i,
        {
            if self.entries[i].node == node && self.entries[i].timer_id == timer_id {
                return Some(i);
            }
            i = i + 1;
        }
        None
    }

    /// The current generation for a key, or `None` for a key never seen.
    pub fn lookup(&self, node: NodeId, timer_id: u32) -> (r: Option<u64>)
        requires
            self.wf(),
        ensures
            r == (if self@.dom().contains((node, timer_id)) {
                Some(self@[(node, timer_id)])
            } else {
                None::<u64>
            }),
    {
        match self.position(node, timer_id) {
            Some(i) => {
                proof {
                    let k = (node, timer_id);
                    assert(has_key(self.entries@, k));
                    let w = choose|j: int|
                        0 <= j < self.entries@.len() && (#[trigger] self.entries@[j]).key() == k;
                    assert(w == i as int);
                }
                Some(self.entries[i].generation)
            },
            None => None,
        }
    }

    /// The generation a freshly started timer captures: the current one
    /// for the key, with an entry of generation 0 created for a key never
    /// seen (start itself never bumps anything).
    pub fn read_or_insert(&mut self, node: NodeId, timer_id: u32) -> (g: u64)
        requires
            old(self).wf(),
        ensures
            final(self).wf(),
            g == (if old(self)@.dom().contains((node, timer_id)) {
                old(self)@[(node, timer_id)]
            } else {
                0
            }),
            final(self)@ == old(self)@.insert((node, timer_id), g),
    {
        let ghost k = (node, timer_id);
        match self.position(node, timer_id) {
            Some(i) => {
                proof {
                    assert(has_key(self.entries@, k));
                    let w = choose|j: int|
                        0 <= j < self.entries@.len() && (#[trigger] self.entries@[j]).key() == k;
                    assert(w == i as int);
                    assert(self@ =~= self@.insert(k, self.entries@[i as int].generation));
                }
                self.entries[i].generation
            },
            None => {
                let ghost prev = self.entries@;
                self.entries.push(TimerEntry { node, timer_id, generation: 0 });
                proof {
                    assert(self.entries@[prev.len() as int].key() == k);
                    assert forall|k2: (NodeId, u32)| k2 != k implies (has_key(self.entries@, k2)
                        == has_key(prev, k2) && (has_key(prev, k2) ==> gen_at(self.entries@, k2)
                        == gen_at(prev, k2))) by {
                        assert forall|j: int|
                            0 <= j < self.entries@.len() && (#[trigger] self.entries@[j]).key()
                                == k2 implies 0 <= j < prev.len() && prev[j].key() == k2 by {
                            if j == prev.len() {
                                assert(self.entries@[j].key() == k);
                            }
                        }
                        assert(forall|j: int|
                            0 <= j < prev.len() && (#[trigger] prev[j]).key() == k2
                                ==> self.entries@[j].key() == k2);
                    }
                    assert(gen_at(self.entries@, k) == 0);
                    assert(self@ =~= old(self)@.insert(k, 0));
                }
                0
            },
        }
    }

    /// Cancellation: bump the key's generation (a key never seen starts
    /// at 0 and is bumped to 1), invalidating every expiry event that
    /// captured an older generation.
    pub fn bump(&mut self, node: NodeId, timer_id: u32) -> (g: u64)
        requires
            old(self).wf(),
        ensures
            final(self).wf(),
            g == sat_inc(
                if old(self)@.dom().contains((node, timer_id)) {
                    old(self)@[(node, timer_id)]
                } else {
                    0
                },
            ),
            final(self)@ == old(self)@.insert((node, timer_id), g),
    {
        let ghost k = (node, timer_id);
        match self.position(node, timer_id) {
            Some(i) => {
                let cur = self.entries[i].generation;
                let next = if cur == u64::MAX {
                    cur
                } else {
                    cur + 1
                };
                proof {
                    assert(has_key(self.entries@, k));
                    let w = choose|j: int|
                        0 <= j < self.entries@.len() && (#[trigger] self.entries@[j]).key() == k;
                    assert(w == i as int);
                }
                let ghost prev = self.entries@;
                let e = &mut self.entries[i];
                e.generation = next;
                proof {
                    assert(self.entries@ =~= prev.update(
                        i as int,
                        TimerEntry { node, timer_id, generation: next },
                    ));
                    assert forall|k2: (NodeId, u32)| k2 != k implies (has_key(self.entries@, k2)
                        == has_key(prev, k2) && (has_key(prev, k2) ==> gen_at(self.entries@, k2)
                        == gen_at(prev, k2))) by {
                        assert(forall|j: int|
                            0 <= j < self.entries@.len() && (#[trigger] self.entries@[j]).key()
                                == k2 ==> prev[j].key() == k2);
                        assert(forall|j: int|
                            0 <= j < prev.len() && (#[trigger] prev[j]).key() == k2
                                ==> self.entries@[j].key() == k2);
                    }
                    assert(self.entries@[i as int].key() == k);
                    assert(gen_at(self.entries@, k) == next);
                    assert(self@ =~= old(self)@.insert(k, next));
                }
                next
            },
            None => {
                let ghost prev = self.entries@;
                self.entries.push(TimerEntry { node, timer_id, generation: 1 });
                proof {
                    assert(self.entries@[prev.len() as int].key() == k);
                    assert forall|k2: (NodeId, u32)| k2 != k implies (has_key(self.entries@, k2)
                        == has_key(prev, k2) && (has_key(prev, k2) ==> gen_at(self.entries@, k2)
                        == gen_at(prev, k2))) by {
                        assert forall|j: int|
                            0 <= j < self.entries@.len() && (#[trigger] self.entries@[j]).key()
                                == k2 implies 0 <= j < prev.len() && prev[j].key() == k2 by {
                            if j == prev.len() {
                                assert(self.entries@[j].key() == k);
                            }
                        }
                        assert(forall|j: int|
                            0 <= j < prev.len() && (#[trigger] prev[j]).key() == k2
                                ==> self.entries@[j].key() == k2);
                    }
                    assert(gen_at(self.entries@, k) == 1);
                    assert(self@ =~= old(self)@.insert(k, 1));
                }
                1
            },
        }
    }
}

} // verus!
