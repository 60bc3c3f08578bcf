//! Core data model: decoded tags, display-list slots, and frame snapshots.
//!
//! Translations travel through the tag stream in twips (twentieths of a
//! pixel); snapshots carry whole pixels, rounded to nearest with ties away
//! from zero.

use vstd::prelude::*;

verus! {

/// A sub-pixel translation, in twips (1/20 of a pixel).
#[derive(Clone, Copy, PartialEq, Eq, Structural, Debug)]
pub struct Translation {
    pub dx: i32,
    pub dy: i32,
}

/// One decoded record of the tag stream, reduced to what the display list
/// reacts to. Place covers both the "place new" and "replace" actions, which
/// behave identically on a depth slot; Modify adjusts an existing slot in
/// place; Remove clears a depth; ShowFrame commits the current display list
/// as the next output frame.
#[derive(Clone, Copy, PartialEq, Eq, Debug)]
#[allow(inconsistent_fields)]
pub enum Tag {
    Place { depth: u16, character_id: u16, translation: Translation },
    Modify { depth: u16, translation: Option<Translation> },
    Remove { depth: u16 },
    ShowFrame,
}

/// An active display-list slot: one object at one depth, still in twips.
#[derive(Clone, Copy, PartialEq, Eq, Structural, Debug)]
pub struct Slot {
    pub depth: u16,
    pub character_id: u16,
    pub tx: i32,
    pub ty: i32,
}

/// One flattened per-frame record, with the translation in whole pixels.
#[derive(Clone, Copy, PartialEq, Eq, Structural, Debug)]
pub struct InstanceSnapshot {
    pub depth: u16,
    pub character_id: u16,
    pub x_px: i32,
    pub y_px: i32,
}

/// Twips to whole pixels: round to nearest, ties away from zero.
pub open spec fn px_from_twips(t: int) -> int {
    if t >= 0 {
        (t + 10) / 20
    } else {
        -((10 - t) / 20)
    }
}

/// The rounded value of a twip count that fits in `i32` fits in `i32` too.
pub proof fn lemma_px_from_twips_range(t: int)
    requires
        i32::MIN <= t <= i32::MAX,
    ensures
        i32::MIN <= px_from_twips(t) <= i32::MAX,
        t >= 0 ==> px_from_twips(t) >= 0,
        t < 0 ==> px_from_twips(t) <= 0,
{
}

/// The snapshot a slot flattens to: same depth and character, translation
/// rounded from twips to pixels.
pub open spec fn snap_of(s: Slot) -> InstanceSnapshot {
    InstanceSnapshot {
        depth: s.depth,
        character_id: s.character_id,
        x_px: px_from_twips(s.tx as int) as i32,
        y_px: px_from_twips(s.ty as int) as i32,
    }
}

/// Rounds a twip count to whole pixels, to nearest, ties away from zero.
pub fn px_of_twips(t: i32) -> (r: i32)
    ensures
        r as int == px_from_twips(t as int),
{
    proof {
        lemma_px_from_twips_range(t as int);
    }
    if t >= 0 {
        (((t as i64) + 10) / 20) as i32
    } else {
        (-((10 - (t as i64)) / 20)) as i32
    }
}

/// Flattens one slot into its per-frame snapshot.
pub fn snapshot_of(s: &Slot) -> (r: InstanceSnapshot)
    ensures
        r == snap_of(*s),
{
    InstanceSnapshot {
        depth: s.depth,
        character_id: s.character_id,
        x_px: px_of_twips(s.tx),
        y_px: px_of_twips(s.ty),
    }
}

} // verus!
