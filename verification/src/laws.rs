//! The guarantees every constructed handle carries, stated on their own:
//! table consistency, the resource caps, and index clamping.

use vstd::prelude::*;

use crate::player::{clamp_index, PlayerHandle};
use crate::replay::{counts_sum, lemma_offsets_are_prefix_sums, FRAME_CAP, INSTANCE_CAP};

verus! {

/// A well-formed handle's tables fit together: one more offset than
/// counts, offsets running as the cumulative sums of the counts, and the
/// instance buffer exactly as long as the counts sum to.
pub proof fn lemma_handle_tables(h: &PlayerHandle)
    requires
        h.wf(),
    ensures
        h.offsets@.len() == h.counts@.len() + 1,
        h.offsets@[0] == 0,
        forall|k: int|
            0 <= k < h.counts@.len() ==> h.offsets@[k + 1] == h.offsets@[k] + h.counts@[k],
        counts_sum(h.counts@) == h.instances@.len(),
{
    lemma_offsets_are_prefix_sums(h.counts@, h.offsets@, h.instances@);
}

/// A well-formed handle respects both resource caps, and its frame total
/// fits its sixteen-bit storage.
pub proof fn lemma_handle_caps(h: &PlayerHandle)
    requires
        h.wf(),
    ensures
        h.frame_total <= 0xffff,
        h.frames().len() == h.frame_total,
        h.frames().len() <= FRAME_CAP,
        h.instances@.len() <= INSTANCE_CAP,
{
}

/// Clamping sends every out-of-range frame index to the frame an in-range
/// query of the first or last frame reads, and leaves in-range indices
/// alone.
pub proof fn lemma_query_clamping(idx: int, n: nat)
    requires
        n > 0,
    ensures
        idx < 0 ==> clamp_index(idx, n) == clamp_index(0, n),
        idx >= n ==> clamp_index(idx, n) == clamp_index(n - 1 as int, n),
        0 <= idx < n ==> clamp_index(idx, n) == idx,
        0 <= clamp_index(idx, n) < n,
{
}

} // verus!
