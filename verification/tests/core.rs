use swf_frames::dlist::DisplayList;
use swf_frames::tags::{px_of_twips, snapshot_of, InstanceSnapshot, Slot, Translation};

fn slot(depth: u16, id: u16, tx: i32, ty: i32) -> Slot {
    Slot { depth, character_id: id, tx, ty }
}

#[test]
fn px_rounding_is_nearest_ties_away_from_zero() {
    assert_eq!(px_of_twips(0), 0);
    assert_eq!(px_of_twips(9), 0);
    assert_eq!(px_of_twips(10), 1);
    assert_eq!(px_of_twips(11), 1);
    assert_eq!(px_of_twips(20), 1);
    assert_eq!(px_of_twips(29), 1);
    assert_eq!(px_of_twips(30), 2);
    assert_eq!(px_of_twips(31), 2);
    assert_eq!(px_of_twips(-9), 0);
    assert_eq!(px_of_twips(-10), -1);
    assert_eq!(px_of_twips(-30), -2);
    assert_eq!(px_of_twips(200), 10);
    assert_eq!(px_of_twips(400), 20);
}

#[test]
fn px_rounding_extremes() {
    // (2147483647 + 10) / 20 and -((2147483648 + 10) / 20), rounded toward zero
    assert_eq!(px_of_twips(i32::MAX), 107374182);
    assert_eq!(px_of_twips(i32::MIN), -107374182);
}

#[test]
fn snapshot_converts_both_axes() {
    let s = snapshot_of(&slot(3, 7, 210, -210));
    assert_eq!(
        s,
        InstanceSnapshot { depth: 3, character_id: 7, x_px: 11, y_px: -11 }
    );
}

#[test]
fn place_keeps_ascending_depth_order() {
    let mut dl = DisplayList::new();
    dl.place(slot(5, 50, 0, 0));
    dl.place(slot(1, 10, 0, 0));
    dl.place(slot(3, 30, 0, 0));
    assert_eq!(dl.len(), 3);
    assert_eq!(dl.slot_at(0).depth, 1);
    assert_eq!(dl.slot_at(1).depth, 3);
    assert_eq!(dl.slot_at(2).depth, 5);
}

#[test]
fn place_at_same_depth_replaces() {
    let mut dl = DisplayList::new();
    dl.place(slot(2, 10, 100, 100));
    dl.place(slot(2, 99, 200, 300));
    assert_eq!(dl.len(), 1);
    assert_eq!(dl.slot_at(0), slot(2, 99, 200, 300));
}

#[test]
fn modify_updates_translation_and_keeps_character() {
    let mut dl = DisplayList::new();
    dl.place(slot(4, 8, 100, 100));
    dl.modify(4, Some(Translation { dx: 640, dy: -640 }));
    assert_eq!(dl.slot_at(0), slot(4, 8, 640, -640));
}

#[test]
fn modify_without_translation_is_a_no_op() {
    let mut dl = DisplayList::new();
    dl.place(slot(4, 8, 100, 100));
    dl.modify(4, None);
    assert_eq!(dl.slot_at(0), slot(4, 8, 100, 100));
}

#[test]
fn modify_of_absent_depth_is_a_no_op() {
    let mut dl = DisplayList::new();
    dl.place(slot(4, 8, 100, 100));
    dl.modify(9, Some(Translation { dx: 1, dy: 2 }));
    assert_eq!(dl.len(), 1);
    assert_eq!(dl.slot_at(0), slot(4, 8, 100, 100));
}

#[test]
fn remove_deletes_only_its_depth() {
    let mut dl = DisplayList::new();
    dl.place(slot(1, 10, 0, 0));
    dl.place(slot(2, 20, 0, 0));
    dl.remove(1);
    assert_eq!(dl.len(), 1);
    assert_eq!(dl.slot_at(0).depth, 2);
}

#[test]
fn remove_of_absent_depth_is_a_no_op() {
    let mut dl = DisplayList::new();
    dl.place(slot(1, 10, 0, 0));
    dl.remove(7);
    assert_eq!(dl.len(), 1);
}
