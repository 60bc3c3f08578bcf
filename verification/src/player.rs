//! The player handle: the immutable aggregate a decoded movie collapses to,
//! with its construction from a tag sequence and the bounds-checked query
//! layer over it.

use vstd::prelude::*;

use crate::dlist::DisplayList;
use crate::replay::{
    frame_batch, frames_of, replay, spec_frames, tables_wf, FRAME_CAP, INSTANCE_CAP,
};
use crate::tags::{snapshot_of, InstanceSnapshot, Slot, Tag};

verus! {

/// The immutable result of decoding: stage size, the per-frame count and
/// offset tables, and the flat instance buffer covering all frames
/// contiguously.
pub struct PlayerHandle {
    pub stage_width: i32,
    pub stage_height: i32,
    pub frame_total: u16,
    pub counts: Vec<u16>,
    pub offsets: Vec<u32>,
    pub instances: Vec<InstanceSnapshot>,
}

impl PlayerHandle {
    /// Everything a successful construction guarantees: the tables fit
    /// together, the frame total mirrors the count table, and both resource
    /// caps hold.
    pub open spec fn wf(&self) -> bool {
        &&& tables_wf(self.counts@, self.offsets@, self.instances@)
        &&& self.frame_total == self.counts@.len()
        &&& self.counts@.len() <= FRAME_CAP
        &&& self.instances@.len() <= INSTANCE_CAP
    }

    /// The frames the handle stores, each in ascending depth order.
    pub open spec fn frames(&self) -> Seq<Seq<InstanceSnapshot>> {
        frames_of(self.counts@, self.offsets@, self.instances@)
    }

    /// How many frames the handle stores.
    pub fn frame_count(&self) -> (r: u16)
        ensures
            r == self.frame_total,
    {
        self.frame_total
    }

    /// How many instances the flat buffer holds over all frames.
    pub fn instance_total(&self) -> (r: usize)
        ensures
            r == self.instances@.len(),
    {
        self.instances.len()
    }
}

/// Where an arbitrary queried frame index lands once clamped into a handle
/// with `n` frames: negatives land on the first frame, overlarge indices on
/// the last.
pub open spec fn clamp_index(idx: int, n: nat) -> int {
    if idx < 0 {
        0
    } else if idx >= n {
        n - 1
    } else {
        idx
    }
}

/// Replays a decoded tag sequence into a player handle: the display list is
/// mutated tag by tag, every frame boundary commits one flattened batch,
/// and the state machine is discarded at the end.
pub fn build_player(stage_width: i32, stage_height: i32, tags: &Vec<Tag>) -> (r: PlayerHandle)
    ensures
        r.wf(),
        r.frames() == replay(tags@),
        r.stage_width == stage_width,
        r.stage_height == stage_height,
{
    let mut dl = DisplayList::new();
    let mut counts: Vec<u16> = Vec::new();
    let mut offsets: Vec<u32> = Vec::new();
    let mut instances: Vec<InstanceSnapshot> = Vec::new();
    offsets.push(0);
    let mut i: usize = 0;
    proof {
        assert(tags@.skip(0) =~= tags@);
        assert(dl@ =~= Seq::<Slot>::empty());
        assert(frames_of(counts@, offsets@, instances@) =~= Seq::<Seq<InstanceSnapshot>>::empty());
        assert(replay(tags@) =~= frames_of(counts@, offsets@, instances@) + spec_frames(
            tags@.skip(0),
            dl@,
            counts@.len() as nat,
            instances@.len() as nat,
        ));
    }
    while i < tags.len()
        invariant_except_break
            i <= tags@.len(),
            dl.wf(),
            tables_wf(counts@, offsets@, instances@),
            counts@.len() <= FRAME_CAP,
            instances@.len() <= INSTANCE_CAP,
            replay(tags@) =~= frames_of(counts@, offsets@, instances@) + spec_frames(
                tags@.skip(i as int),
                dl@,
                counts@.len() as nat,
                instances@.len() as nat,
            ),
        ensures
            tables_wf(counts@, offsets@, instances@),
            counts@.len() <= FRAME_CAP,
            instances@.len() <= INSTANCE_CAP,
            replay(tags@) =~= frames_of(counts@, offsets@, instances@),
        decreases tags@.len() - i,
    {
        let ghost tail = tags@.skip(i as int);
        proof {
            assert(tail[0] == tags@[i as int]);
            assert(tail.drop_first() =~= tags@.skip(i as int + 1));
        }
        let t = tags[i];
        match t {
            Tag::Place { depth, character_id, translation } => {
                dl.place(
                    Slot { depth, character_id, tx: translation.dx, ty: translation.dy },
                );
            },
            Tag::Modify { depth, translation } => {
                dl.modify(depth, translation);
            },
            Tag::Remove { depth } => {
                dl.remove(depth);
            },
            Tag::ShowFrame => {
                if counts.len() == FRAME_CAP {
                    proof {
                        assert(spec_frames(
                            tail,
                            dl@,
                            counts@.len() as nat,
                            instances@.len() as nat,
                        ) =~= Seq::<Seq<InstanceSnapshot>>::empty());
                    }
                    break ;
                }
                let ghost counts0 = counts@;
                let ghost offsets0 = offsets@;
                let ghost inst0 = instances@;
                let ghost room = (INSTANCE_CAP - instances@.len()) as nat;
                let ghost batch = frame_batch(dl@, room);
                let dl_len = dl.len();
                let room_now = INSTANCE_CAP - instances.len();
                let n = if dl_len <= room_now {
                    dl_len
                } else {
                    room_now
                };
                let mut j: usize = 0;
                while j < n
                    invariant
                        j <= n,
                        n <= dl@.len(),
                        n == batch.len(),
                        dl.wf(),
                        batch == frame_batch(dl@, room),
                        instances@ =~= inst0 + batch.take(j as int),
                    decreases n - j,
                {
                    let s = dl.slot_at(j);
                    instances.push(snapshot_of(&s));
                    proof {
                        assert(instances@ =~= inst0 + batch.take(j as int + 1));
                    }
                    j += 1;
                }
                proof {
                    assert(batch.take(n as int) =~= batch);
                    assert(instances@ =~= inst0 + batch);
                }
                let base = offsets[offsets.len() - 1];
                counts.push(n as u16);
                offsets.push(base + n as u32);
                proof {
                    assert(instances@.len() == inst0.len() + n);
                    assert(tables_wf(counts@, offsets@, instances@)) by {
                        assert(forall|k: int|
                            0 <= k < counts0.len() ==> offsets@[k + 1] == offsets@[k]
                                + counts@[k]);
                    }
                    assert(frames_of(counts@, offsets@, instances@) =~= frames_of(
                        counts0,
                        offsets0,
                        inst0,
                    ) + seq![batch]) by {
                        assert forall|k: int| 0 <= k < counts0.len() implies crate::replay::frame_slice(
                            counts@,
                            offsets@,
                            instances@,
                            k,
                        ) =~= crate::replay::frame_slice(counts0, offsets0, inst0, k) by {
                            assert(offsets@[k] == offsets0[k]);
                            assert(counts@[k] == counts0[k]);
                        }
                        assert(crate::replay::frame_slice(
                            counts@,
                            offsets@,
                            instances@,
                            counts0.len() as int,
                        ) =~= batch);
                    }
                    assert(spec_frames(tail, dl@, counts0.len() as nat, inst0.len() as nat)
                        =~= seq![batch] + spec_frames(
                        tags@.skip(i as int + 1),
                        dl@,
                        counts@.len() as nat,
                        instances@.len() as nat,
                    ));
                    assert(replay(tags@) =~= frames_of(counts@, offsets@, instances@)
                        + spec_frames(
                        tags@.skip(i as int + 1),
                        dl@,
                        counts@.len() as nat,
                        instances@.len() as nat,
                    ));
                }
            },
        }
        i += 1;
    }
    let r = PlayerHandle {
        stage_width,
        stage_height,
        frame_total: counts.len() as u16,
        counts,
        offsets,
        instances,
    };
    r
}

/// Copies one frame's instances into a caller-supplied buffer, clamping the
/// frame index and truncating to the buffer's capacity.
///
/// Returns `-1` when the capacity is zero, `-2` when the handle has no
/// frames, and otherwise the number of snapshots written, which is the
/// smaller of the frame's instance count and the capacity. `out` is
/// cleared first and never grows past `out_capacity`.
pub fn get_frame_instances(
    handle: &PlayerHandle,
    frame_index: i32,
    out: &mut Vec<InstanceSnapshot>,
    out_capacity: usize,
) -> (r: i32)
    requires
        handle.wf(),
    ensures
        out_capacity == 0 ==> r == -1 && final(out)@ == old(out)@,
        out_capacity > 0 && handle.frames().len() == 0 ==> r == -2 && final(out)@ == old(out)@,
        out_capacity > 0 && handle.frames().len() > 0 ==> {
            let frame = handle.frames()[clamp_index(frame_index as int, handle.frames().len())];
            &&& 0 <= r
            &&& r == if frame.len() <= out_capacity {
                frame.len() as int
            } else {
                out_capacity as int
            }
            &&& final(out)@ == frame.take(r as int)
        },
{
    if out_capacity == 0 {
        return -1;
    }
    if handle.frame_total == 0 {
        return -2;
    }
    let n = handle.counts.len();
    let idx: usize = if frame_index < 0 {
        0
    } else if frame_index as usize >= n {
        n - 1
    } else {
        frame_index as usize
    };
    proof {
        assert(idx as int == clamp_index(frame_index as int, handle.frames().len()));
    }
    let start = handle.offsets[idx] as usize;
    let count = handle.counts[idx] as usize;
    let copy = if count <= out_capacity {
        count
    } else {
        out_capacity
    };
    let ghost frame = handle.frames()[idx as int];
    out.clear();
    let mut k: usize = 0;
    while k < copy
        invariant
            k <= copy,
            copy <= count,
            handle.wf(),
            idx < handle.counts@.len(),
            start == handle.offsets@[idx as int],
            count == handle.counts@[idx as int],
            frame == crate::replay::frame_slice(
                handle.counts@,
                handle.offsets@,
                handle.instances@,
                idx as int,
            ),
            start + count <= handle.instances@.len(),
            out@ =~= frame.take(k as int),
        decreases copy - k,
    {
        out.push(handle.instances[start + k]);
        proof {
            assert(frame[k as int] == handle.instances@[start + k]);
            assert(out@ =~= frame.take(k as int + 1));
        }
        k += 1;
    }
    proof {
        assert(out@ =~= frame.take(copy as int));
    }
    copy as i32
}

/// Releases a handle and everything it owns.
pub fn destroy(handle: PlayerHandle) {
    let _ = handle;
}

/// Creates a player from a raw byte buffer: the buffer is decoded, the tag
/// sequence replayed, and the finished handle returned; any decode failure,
/// a zero-length buffer included, yields nothing and leaves nothing behind.
/// The buffer is only borrowed for the call.
pub fn create(bytes: &Vec<u8>) -> (r: Option<PlayerHandle>)
    ensures
        r is Some <==> crate::parse::spec_movie(bytes@) is Some,
        match r {
            Option::None => crate::parse::spec_movie(bytes@) is None,
            Option::Some(h) => match crate::parse::spec_movie(bytes@) {
                Option::None => false,
                Option::Some(m) => {
                    &&& h.wf()
                    &&& h.frames() == replay(m.2)
                    &&& h.stage_width == m.0
                    &&& h.stage_height == m.1
                },
            },
        },
{
    match crate::parse::parse_movie_bytes(bytes) {
        Option::None => Option::None,
        Option::Some((w, h, ts)) => Option::Some(build_player(w, h, &ts)),
    }
}

} // verus!
