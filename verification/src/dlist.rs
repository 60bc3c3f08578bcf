//! The display-list state machine: an ordered mapping from depth to the
//! active object slot, mutated tag by tag while decoding and discarded once
//! decoding completes.
//!
//! The table is a vector kept sorted by strictly ascending depth, so walking
//! it front to back is exactly the ascending-depth iteration the frame
//! accumulator needs.

use vstd::prelude::*;

use crate::tags::{Slot, Translation};

verus! {

/// Depths strictly ascend, which also makes them unique.
pub open spec fn depth_sorted(s: Seq<Slot>) -> bool {
    forall|i: int, j: int| 0 <= i < j < s.len() ==> s[i].depth < s[j].depth
}

/// Placing (or replacing) at a depth: the slot is inserted at its sorted
/// position; a slot already at that depth is discarded.
pub open spec fn dl_place(s: Seq<Slot>, slot: Slot) -> Seq<Slot>
    decreases s.len(),
{
    if s.len() == 0 {
        seq![slot]
    } else if s[0].depth < slot.depth {
        seq![s[0]] + dl_place(s.drop_first(), slot)
    } else if s[0].depth == slot.depth {
        seq![slot] + s.drop_first()
    } else {
        seq![slot] + s
    }
}

/// Modifying at a depth: with a translation, every slot at that depth takes
/// it (at most one exists in a sorted table) and its character is kept;
/// without one, or with no slot at that depth, nothing changes.
pub open spec fn dl_modify(s: Seq<Slot>, depth: u16, translation: Option<Translation>) -> Seq<Slot> {
    match translation {
        Option::None => s,
        Option::Some(t) => s.map(
            |i: int, sl: Slot|
                if sl.depth == depth {
                    Slot { depth: sl.depth, character_id: sl.character_id, tx: t.dx, ty: t.dy }
                } else {
                    sl
                },
        ),
    }
}

/// Removing at a depth: every slot at that depth goes; an absent depth is a
/// no-op.
pub open spec fn dl_remove(s: Seq<Slot>, depth: u16) -> Seq<Slot>
    decreases s.len(),
{
    if s.len() == 0 {
        s
    } else if s[0].depth == depth {
        dl_remove(s.drop_first(), depth)
    } else {
        seq![s[0]] + dl_remove(s.drop_first(), depth)
    }
}

/// In a sorted table whose first `i` slots sit below `slot.depth` and whose
/// slot `i` matches it, placing overwrites exactly slot `i`.
proof fn lemma_place_updates(s: Seq<Slot>, slot: Slot, i: int)
    requires
        depth_sorted(s),
        0 <= i < s.len(),
        forall|k: int| 0 <= k < i ==> s[k].depth < slot.depth,
        s[i].depth == slot.depth,
    ensures
        dl_place(s, slot) =~= s.update(i, slot),
    decreases i,
{
    if i == 0 {
        assert(dl_place(s, slot) =~= seq![slot] + s.drop_first());
    } else {
        assert(s[0].depth < slot.depth);
        lemma_place_updates(s.drop_first(), slot, i - 1);
        assert(dl_place(s, slot) =~= seq![s[0]] + s.drop_first().update(i - 1, slot));
    }
}

/// In a sorted table whose first `i` slots sit below `slot.depth` and where
/// slot `i`, if any, sits above it, placing inserts at position `i`.
proof fn lemma_place_inserts(s: Seq<Slot>, slot: Slot, i: int)
    requires
        depth_sorted(s),
        0 <= i <= s.len(),
        forall|k: int| 0 <= k < i ==> s[k].depth < slot.depth,
        i < s.len() ==> s[i].depth > slot.depth,
    ensures
        dl_place(s, slot) =~= s.insert(i, slot),
    decreases i,
{
    if s.len() == 0 {
    } else if i == 0 {
        assert(s[0].depth > slot.depth);
    } else {
        assert(s[0].depth < slot.depth);
        lemma_place_inserts(s.drop_first(), slot, i - 1);
        assert(dl_place(s, slot) =~= seq![s[0]] + s.drop_first().insert(i - 1, slot));
    }
}

/// In a table whose first `i` slots miss `depth` and whose slot `i` carries
/// it, and where `depth` occurs nowhere later (sortedness gives that),
/// removal deletes exactly slot `i`.
proof fn lemma_remove_deletes(s: Seq<Slot>, depth: u16, i: int)
    requires
        depth_sorted(s),
        0 <= i < s.len(),
        forall|k: int| 0 <= k < i ==> s[k].depth != depth,
        s[i].depth == depth,
    ensures
        dl_remove(s, depth) =~= s.remove(i),
    decreases i,
{
    if i == 0 {
        assert(forall|k: int| 0 <= k < s.drop_first().len() ==> s.drop_first()[k].depth > depth);
        lemma_remove_absent(s.drop_first(), depth);
        assert(dl_remove(s, depth) =~= s.drop_first());
    } else {
        lemma_remove_deletes(s.drop_first(), depth, i - 1);
        assert(dl_remove(s, depth) =~= seq![s[0]] + s.drop_first().remove(i - 1));
    }
}

/// Removing a depth that no slot carries changes nothing.
proof fn lemma_remove_absent(s: Seq<Slot>, depth: u16)
    requires
        forall|k: int| 0 <= k < s.len() ==> s[k].depth != depth,
    ensures
        dl_remove(s, depth) =~= s,
    decreases s.len(),
{
    if s.len() > 0 {
        lemma_remove_absent(s.drop_first(), depth);
        assert(dl_remove(s, depth) =~= seq![s[0]] + s.drop_first());
    }
}

/// The mutable depth table used while decoding.
pub struct DisplayList {
    slots: Vec<Slot>,
}

impl View for DisplayList {
    type V = Seq<Slot>;

    closed spec fn view(&self) -> Seq<Slot> {
        self.slots@
    }
}

impl DisplayList {
    /// The table's invariant: slots stand in strictly ascending depth order.
    pub open spec fn wf(&self) -> bool {
        depth_sorted(self@)
    }

    /// An empty display list.
    pub fn new() -> (r: Self)
        ensures
            r.wf(),
            r@.len() == 0,
    {
        DisplayList { slots: Vec::new() }
    }

    /// How many slots are active.
    pub fn len(&self) -> (r: usize)
        ensures
            r == self@.len(),
    {
        self.slots.len()
    }

    /// The slot at position `i` of the ascending-depth order.
    pub fn slot_at(&self, i: usize) -> (r: Slot)
        requires
            i < self@.len(),
        ensures
            r == self@[i as int],
    {
        self.slots[i]
    }

    /// Place or replace: the slot at `slot.depth` becomes `slot`, whatever
    /// stood there before.
    pub fn place(&mut self, slot: Slot)
        requires
            old(self).wf(),
        ensures
            final(self).wf(),
            final(self)@ == dl_place(old(self)@, slot),
    {
        let ghost s0 = self@;
        let mut i: usize = 0;
        while i < self.slots.len() && self.slots[i].depth < slot.depth
            invariant
                self == old(self),
                i <= self@.len(),
                forall|k: int| 0 <= k < i ==> self@[k].depth < slot.depth,
            decreases self@.len() - i,
        {
            i += 1;
        }
        if i < self.slots.len() && self.slots[i].depth == slot.depth {
            self.slots.set(i, slot);
            proof {
                lemma_place_updates(s0, slot, i as int);
            }
        } else {
            self.slots.insert(i, slot);
            proof {
                lemma_place_inserts(s0, slot, i as int);
            }
        }
    }

    /// Modify: with a translation, the slot at `depth` (if any) takes it and
    /// keeps its character; without one, or with no such slot, a no-op.
    pub fn modify(&mut self, depth: u16, translation: Option<Translation>)
        requires
            old(self).wf(),
        ensures
            final(self).wf(),
            final(self)@ == dl_modify(old(self)@, depth, translation),
    {
        let ghost s0 = self@;
        let t = match translation {
            Option::None => {
                assert(dl_modify(s0, depth, translation) =~= s0);
                return ;
            },
            Option::Some(t) => t,
        };
        let mut i: usize = 0;
        while i < self.slots.len() && self.slots[i].depth != depth
            invariant
                self == old(self),
                i <= self@.len(),
                forall|k: int| 0 <= k < i ==> self@[k].depth != depth,
            decreases self@.len() - i,
        {
            i += 1;
        }
        if i < self.slots.len() {
            let sl = self.slots[i];
            self.slots.set(
                i,
                Slot { depth: sl.depth, character_id: sl.character_id, tx: t.dx, ty: t.dy },
            );
            proof {
                assert(self@ =~= dl_modify(s0, depth, translation)) by {
                    assert(forall|k: int|
                        0 <= k < s0.len() && k != i ==> #[trigger] s0[k].depth != depth);
                }
            }
        } else {
            proof {
                assert(self@ =~= dl_modify(s0, depth, translation));
            }
        }
    }

    /// Remove: the slot at `depth` goes; an absent depth is a no-op.
    pub fn remove(&mut self, depth: u16)
        requires
            old(self).wf(),
        ensures
            final(self).wf(),
            final(self)@ == dl_remove(old(self)@, depth),
    {
        let ghost s0 = self@;
        let mut i: usize = 0;
        while i < self.slots.len() && self.slots[i].depth != depth
            invariant
                self == old(self),
                i <= self@.len(),
                forall|k: int| 0 <= k < i ==> self@[k].depth != depth,
            decreases self@.len() - i,
        {
            i += 1;
        }
        if i < self.slots.len() {
            self.slots.remove(i);
            proof {
                lemma_remove_deletes(s0, depth, i as int);
            }
        } else {
            proof {
                lemma_remove_absent(s0, depth);
            }
        }
    }
}

} // verus!
