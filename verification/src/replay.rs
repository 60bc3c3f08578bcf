//! The frame snapshot accumulator, as a mathematical model: replaying a tag
//! sequence through the display-list state machine and committing one
//! flattened snapshot batch per frame boundary, under two hard resource
//! caps.

use vstd::prelude::*;

use crate::dlist::{dl_modify, dl_place, dl_remove};
use crate::tags::{snap_of, InstanceSnapshot, Slot, Tag};

verus! {

/// Hard cap on committed frames: reaching it stops all further tag
/// processing.
pub const FRAME_CAP: usize = 16384;

/// Hard cap on the flattened instance buffer, across all frames: slots past
/// it are silently dropped.
pub const INSTANCE_CAP: usize = 65535;

/// The batch a frame boundary commits: the display list in ascending depth
/// order, flattened to pixel snapshots, truncated to the room the instance
/// cap still leaves.
pub open spec fn frame_batch(dl: Seq<Slot>, room: nat) -> Seq<InstanceSnapshot> {
    Seq::new(if dl.len() <= room { dl.len() } else { room }, |k: int| snap_of(dl[k]))
}

/// The frames still to be committed, given the tags not yet processed, the
/// current display list, and how many frames and buffered instances exist
/// already.
pub open spec fn spec_frames(tags: Seq<Tag>, dl: Seq<Slot>, frames_done: nat, used: nat) -> Seq<
    Seq<InstanceSnapshot>,
>
    decreases tags.len(),
{
    if tags.len() == 0 {
        Seq::empty()
    } else {
        let rest = tags.drop_first();
        match tags[0] {
            Tag::Place { depth, character_id, translation } => spec_frames(
                rest,
                dl_place(
                    dl,
                    Slot { depth, character_id, tx: translation.dx, ty: translation.dy },
                ),
                frames_done,
                used,
            ),
            Tag::Modify { depth, translation } => spec_frames(
                rest,
                dl_modify(dl, depth, translation),
                frames_done,
                used,
            ),
            Tag::Remove { depth } => spec_frames(rest, dl_remove(dl, depth), frames_done, used),
            Tag::ShowFrame => {
                if frames_done >= FRAME_CAP {
                    Seq::empty()
                } else {
                    let room = if used <= INSTANCE_CAP {
                        (INSTANCE_CAP - used) as nat
                    } else {
                        0
                    };
                    let batch = frame_batch(dl, room);
                    seq![batch] + spec_frames(rest, dl, frames_done + 1, used + batch.len())
                }
            },
        }
    }
}

/// The full flattening of a tag stream: every committed frame, in order.
pub open spec fn replay(tags: Seq<Tag>) -> Seq<Seq<InstanceSnapshot>> {
    spec_frames(tags, Seq::empty(), 0, 0)
}

/// How the two parallel tables and the flat buffer fit together: one more
/// offset than counts, starting at zero, each step advancing by that
/// frame's count, the buffer ending exactly at the last offset, and every
/// offset within the buffer.
pub open spec fn tables_wf(
    counts: Seq<u16>,
    offsets: Seq<u32>,
    instances: Seq<InstanceSnapshot>,
) -> bool {
    &&& offsets.len() == counts.len() + 1
    &&& offsets[0] == 0
    &&& forall|k: int|
        0 <= k < counts.len() ==> offsets[k + 1] == offsets[k] + counts[k]
    &&& instances.len() == offsets[counts.len() as int]
    &&& forall|k: int| 0 <= k < offsets.len() ==> offsets[k] <= instances.len()
}

/// The frame a well-formed table triple stores at position `k`.
pub open spec fn frame_slice(
    counts: Seq<u16>,
    offsets: Seq<u32>,
    instances: Seq<InstanceSnapshot>,
    k: int,
) -> Seq<InstanceSnapshot> {
    instances.subrange(offsets[k] as int, offsets[k] + counts[k])
}

/// All frames a well-formed table triple stores, in order.
pub open spec fn frames_of(
    counts: Seq<u16>,
    offsets: Seq<u32>,
    instances: Seq<InstanceSnapshot>,
) -> Seq<Seq<InstanceSnapshot>> {
    Seq::new(counts.len(), |k: int| frame_slice(counts, offsets, instances, k))
}

/// The sum of a count table.
pub open spec fn counts_sum(s: Seq<u16>) -> int
    decreases s.len(),
{
    if s.len() == 0 {
        0
    } else {
        counts_sum(s.drop_last()) + s.last()
    }
}

/// In a well-formed table triple, each offset is the sum of the counts
/// before it; in particular the buffer's length is the sum of all counts.
pub proof fn lemma_offsets_are_prefix_sums(
    counts: Seq<u16>,
    offsets: Seq<u32>,
    instances: Seq<InstanceSnapshot>,
)
    requires
        tables_wf(counts, offsets, instances),
    ensures
        forall|k: int| 0 <= k <= counts.len() ==> offsets[k] == counts_sum(#[trigger] counts.take(k)),
        counts_sum(counts) == instances.len(),
{
    assert forall|k: int| 0 <= k <= counts.len() implies offsets[k] == counts_sum(
        #[trigger] counts.take(k),
    ) by {
        lemma_prefix_sum_at(counts, offsets, instances, k);
    }
    assert(counts.take(counts.len() as int) =~= counts);
}

proof fn lemma_prefix_sum_at(
    counts: Seq<u16>,
    offsets: Seq<u32>,
    instances: Seq<InstanceSnapshot>,
    k: int,
)
    requires
        tables_wf(counts, offsets, instances),
        0 <= k <= counts.len(),
    ensures
        offsets[k] == counts_sum(counts.take(k)),
    decreases k,
{
    if k > 0 {
        lemma_prefix_sum_at(counts, offsets, instances, k - 1);
        assert(counts.take(k).drop_last() =~= counts.take(k - 1));
        assert(counts.take(k).last() == counts[k - 1]);
    }
}

} // verus!
