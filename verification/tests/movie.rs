use swf_frames::player::{build_player, create, destroy, get_frame_instances, PlayerHandle};
use swf_frames::tags::{InstanceSnapshot, Tag, Translation};

/// A minimal header: uncompressed signature, version, length word, a
/// 11000 x 8000 twip stage rectangle, frame rate and frame count words.
fn movie(tag_bytes: &[u8]) -> Vec<u8> {
    let mut v = vec![
        0x46, 0x57, 0x53, 0x06, // "FWS", version 6
        0x00, 0x00, 0x00, 0x00, // length word (not validated)
        0x78, 0x00, 0x05, 0x5f, 0x00, 0x00, 0x0f, 0xa0, 0x00, // rect
        0x00, 0x0c, // frame rate
        0x01, 0x00, // frame count
    ];
    v.extend_from_slice(tag_bytes);
    v
}

// PlaceObject2: depth 1, character 5, translate (200, 400) twips.
const PLACE_1_5: [u8; 11] = [
    0x89, 0x06, // code 26, length 9
    0x06, // has character, has matrix
    0x01, 0x00, // depth 1
    0x05, 0x00, // character 5
    0x18, 0x19, 0x03, 0x20, // matrix: no scale, no rotate, 12-bit (200, 400)
];

const SHOW_FRAME: [u8; 2] = [0x40, 0x00];

const REMOVE_DEPTH_1: [u8; 4] = [0x02, 0x07, 0x01, 0x00];

const END: [u8; 2] = [0x00, 0x00];

const SNAP_1_5: InstanceSnapshot = InstanceSnapshot { depth: 1, character_id: 5, x_px: 10, y_px: 20 };

fn frame(h: &PlayerHandle, idx: i32) -> (i32, Vec<InstanceSnapshot>) {
    let mut out = Vec::new();
    let r = get_frame_instances(h, idx, &mut out, 64);
    (r, out)
}

#[test]
fn place_then_show_frame_snapshots_one_instance() {
    let mut bytes: Vec<u8> = Vec::new();
    bytes.extend_from_slice(&PLACE_1_5);
    bytes.extend_from_slice(&SHOW_FRAME);
    bytes.extend_from_slice(&END);
    let h = create(&movie(&bytes)).unwrap();
    assert_eq!(h.frame_count(), 1);
    assert_eq!(h.instance_total(), 1);
    let (r, out) = frame(&h, 0);
    assert_eq!(r, 1);
    assert_eq!(out, vec![SNAP_1_5]);
    destroy(h);
}

#[test]
fn remove_empties_the_second_frame() {
    let mut bytes: Vec<u8> = Vec::new();
    bytes.extend_from_slice(&PLACE_1_5);
    bytes.extend_from_slice(&SHOW_FRAME);
    bytes.extend_from_slice(&REMOVE_DEPTH_1);
    bytes.extend_from_slice(&SHOW_FRAME);
    bytes.extend_from_slice(&END);
    let h = create(&movie(&bytes)).unwrap();
    assert_eq!(h.frame_count(), 2);
    assert_eq!(h.instance_total(), 1);
    let (r0, out0) = frame(&h, 0);
    assert_eq!((r0, out0), (1, vec![SNAP_1_5]));
    let (r1, out1) = frame(&h, 1);
    assert_eq!((r1, out1), (0, vec![]));
}

#[test]
fn modify_of_absent_depth_leaves_the_frame_empty() {
    let bytes: Vec<u8> = vec![
        0x87, 0x06, // code 26, length 7
        0x04, // no character, has matrix: a modify
        0x09, 0x00, // depth 9, never placed
        0x18, 0x19, 0x03, 0x20, // matrix
        0x40, 0x00, // show frame
        0x00, 0x00, // end
    ];
    let h = create(&movie(&bytes)).unwrap();
    assert_eq!(h.frame_count(), 1);
    assert_eq!(h.instance_total(), 0);
    let (r, out) = frame(&h, 0);
    assert_eq!((r, out), (0, vec![]));
}

#[test]
fn stage_dimensions_come_from_the_header_rect() {
    let h = create(&movie(&END)).unwrap();
    assert_eq!(h.stage_width, 550);
    assert_eq!(h.stage_height, 400);
    assert_eq!(h.frame_count(), 0);
}

#[test]
fn frame_index_clamps_on_both_sides() {
    let tags = vec![
        Tag::Place { depth: 1, character_id: 5, translation: Translation { dx: 200, dy: 400 } },
        Tag::ShowFrame,
        Tag::ShowFrame,
        Tag::Remove { depth: 1 },
        Tag::ShowFrame,
    ];
    let h = build_player(550, 400, &tags);
    assert_eq!(h.frame_count(), 3);
    assert_eq!(frame(&h, -5), frame(&h, 0));
    assert_eq!(frame(&h, 999), frame(&h, 2));
    assert_eq!(frame(&h, 0), (1, vec![SNAP_1_5]));
    assert_eq!(frame(&h, 2), (0, vec![]));
}

#[test]
fn capacity_truncates_the_copy() {
    let tags = vec![
        Tag::Place { depth: 1, character_id: 5, translation: Translation { dx: 200, dy: 400 } },
        Tag::Place { depth: 2, character_id: 6, translation: Translation { dx: 0, dy: 0 } },
        Tag::Place { depth: 3, character_id: 7, translation: Translation { dx: -200, dy: -400 } },
        Tag::ShowFrame,
    ];
    let h = build_player(550, 400, &tags);
    let mut out = Vec::new();
    let r = get_frame_instances(&h, 0, &mut out, 2);
    assert_eq!(r, 2);
    assert_eq!(
        out,
        vec![
            SNAP_1_5,
            InstanceSnapshot { depth: 2, character_id: 6, x_px: 0, y_px: 0 },
        ]
    );
}

#[test]
fn zero_capacity_and_zero_frames_report_error_sentinels() {
    let tags = vec![Tag::ShowFrame];
    let h = build_player(550, 400, &tags);
    let mut out = Vec::new();
    assert_eq!(get_frame_instances(&h, 0, &mut out, 0), -1);
    let empty = build_player(550, 400, &Vec::new());
    assert_eq!(empty.frame_count(), 0);
    assert_eq!(get_frame_instances(&empty, 0, &mut out, 8), -2);
}

#[test]
fn replace_at_a_depth_discards_the_old_slot() {
    let tags = vec![
        Tag::Place { depth: 1, character_id: 5, translation: Translation { dx: 200, dy: 400 } },
        Tag::Place { depth: 1, character_id: 9, translation: Translation { dx: 600, dy: 800 } },
        Tag::ShowFrame,
    ];
    let h = build_player(550, 400, &tags);
    let (r, out) = frame(&h, 0);
    assert_eq!(r, 1);
    assert_eq!(
        out,
        vec![InstanceSnapshot { depth: 1, character_id: 9, x_px: 30, y_px: 40 }]
    );
}

#[test]
fn modify_without_matrix_keeps_the_old_translation() {
    let tags = vec![
        Tag::Place { depth: 1, character_id: 5, translation: Translation { dx: 200, dy: 400 } },
        Tag::Modify { depth: 1, translation: None },
        Tag::ShowFrame,
    ];
    let h = build_player(550, 400, &tags);
    let (r, out) = frame(&h, 0);
    assert_eq!((r, out), (1, vec![SNAP_1_5]));
}

#[test]
fn corrupt_buffers_yield_no_handle() {
    assert!(create(&Vec::new()).is_none());
    assert!(create(&vec![0x46, 0x57, 0x53]).is_none());
    let good = movie(&[0x40, 0x00, 0x00, 0x00]);
    assert!(create(&good).is_some());
    let mut bad_sig = good.clone();
    bad_sig[0] = 0x43; // a compressed signature: the decoder takes none
    assert!(create(&bad_sig).is_none());
    let truncated: Vec<u8> = good[..10].to_vec();
    assert!(create(&truncated).is_none());
    let mut unterminated = movie(&[]);
    unterminated.extend_from_slice(&PLACE_1_5);
    assert!(create(&unterminated).is_none());
}

#[test]
fn tables_stay_consistent_across_frames() {
    let tags = vec![
        Tag::Place { depth: 1, character_id: 5, translation: Translation { dx: 0, dy: 0 } },
        Tag::Place { depth: 2, character_id: 6, translation: Translation { dx: 0, dy: 0 } },
        Tag::ShowFrame,
        Tag::Remove { depth: 1 },
        Tag::ShowFrame,
        Tag::ShowFrame,
    ];
    let h = build_player(550, 400, &tags);
    assert_eq!(h.counts, vec![2, 1, 1]);
    assert_eq!(h.offsets, vec![0, 2, 3, 4]);
    assert_eq!(h.instances.len(), 4);
    assert_eq!(h.frame_total, 3);
}

#[test]
fn frame_cap_stops_the_stream_hard() {
    let mut bytes: Vec<u8> = Vec::new();
    for _ in 0..16390 {
        bytes.extend_from_slice(&SHOW_FRAME);
    }
    bytes.extend_from_slice(&END);
    let h = create(&movie(&bytes)).unwrap();
    assert_eq!(h.frame_count(), 16384);
    // a place after the cap was hit changes nothing either
    let mut tail: Vec<u8> = Vec::new();
    for _ in 0..16385 {
        tail.extend_from_slice(&SHOW_FRAME);
    }
    tail.extend_from_slice(&PLACE_1_5);
    tail.extend_from_slice(&SHOW_FRAME);
    tail.extend_from_slice(&END);
    let h2 = create(&movie(&tail)).unwrap();
    assert_eq!(h2.frame_count(), 16384);
    assert_eq!(h2.instance_total(), 0);
}

#[test]
fn instance_cap_drops_overflowing_slots() {
    let mut tags: Vec<Tag> = Vec::new();
    for d in 0..40000u16 {
        tags.push(Tag::Place { depth: d, character_id: 1, translation: Translation { dx: 0, dy: 0 } });
    }
    tags.push(Tag::ShowFrame);
    tags.push(Tag::ShowFrame);
    let h = build_player(550, 400, &tags);
    assert_eq!(h.frame_count(), 2);
    assert_eq!(h.counts, vec![40000, 25535]);
    assert_eq!(h.instance_total(), 65535);
    let mut out = Vec::new();
    let r = get_frame_instances(&h, 1, &mut out, 65536);
    assert_eq!(r, 25535);
    assert_eq!(out.len(), 25535);
    assert_eq!(out[0].depth, 0);
    assert_eq!(out[25534].depth, 25534);
}

#[test]
fn unknown_tags_are_skipped() {
    // background color (code 9), then a frame
    let bytes: Vec<u8> = vec![0x43, 0x02, 0xff, 0xff, 0xff, 0x40, 0x00, 0x00, 0x00];
    let h = create(&movie(&bytes)).unwrap();
    assert_eq!(h.frame_count(), 1);
    assert_eq!(h.instance_total(), 0);
}
