use swf_frames::host::{contains_bytes, embedded_movie, should_log, ThreeDSBackend};
use swf_frames::player::create;

#[test]
fn viewport_is_the_fixed_handheld_screen() {
    let b = ThreeDSBackend::new();
    assert_eq!(b.viewport_dimensions(), (400, 240));
}

#[test]
fn tick_heartbeats_every_sixtieth() {
    let mut b = ThreeDSBackend::new();
    assert!(b.tick());
    for _ in 0..59 {
        assert!(!b.tick());
    }
    assert!(b.tick());
    assert_eq!(b.tick_count, 61);
}

#[test]
fn fetch_routes_on_the_movie_name() {
    let b = ThreeDSBackend::new();
    let hit = b.fetch_movie(&b"http://host/test.swf".to_vec());
    assert_eq!(hit, Some(embedded_movie()));
    assert_eq!(b.fetch_movie(&b"http://host/other.swf".to_vec()), None);
    assert_eq!(b.fetch_movie(&Vec::new()), None);
}

#[test]
fn contains_finds_substrings_only_where_they_stand() {
    assert!(contains_bytes(&b"abcdef".to_vec(), &b"cde".to_vec()));
    assert!(contains_bytes(&b"abc".to_vec(), &b"abc".to_vec()));
    assert!(contains_bytes(&b"abc".to_vec(), &Vec::new()));
    assert!(!contains_bytes(&b"abc".to_vec(), &b"abcd".to_vec()));
    assert!(!contains_bytes(&b"abab".to_vec(), &b"aba_".to_vec()));
    assert!(!contains_bytes(&Vec::new(), &b"a".to_vec()));
}

#[test]
fn log_filter_keeps_severe_and_script_records() {
    assert!(should_log(1, &b"core".to_vec()));
    assert!(should_log(3, &b"core".to_vec()));
    assert!(!should_log(4, &b"core".to_vec()));
    assert!(!should_log(5, &b"renderer".to_vec()));
    assert!(should_log(5, &b"core::avm1".to_vec()));
    assert!(should_log(4, &b"avm2".to_vec()));
}

#[test]
fn embedded_movie_decodes_to_one_empty_frame() {
    let bytes = embedded_movie();
    assert_eq!(bytes.len(), 48);
    let h = create(&bytes).unwrap();
    assert_eq!(h.stage_width, 550);
    assert_eq!(h.stage_height, 400);
    assert_eq!(h.frame_count(), 1);
    assert_eq!(h.instance_total(), 0);
}
