use lazy_proxy::cache::ResponseCache;
use lazy_proxy::frame::{frame_status, FrameStatus};

#[test]
fn test_frame_empty_buffer_needs_more() {
    assert_eq!(frame_status(&vec![]), FrameStatus::NeedMore);
}

#[test]
fn test_frame_prefix_without_terminator_needs_more() {
    assert_eq!(frame_status(&vec![0x80]), FrameStatus::NeedMore);
}

#[test]
fn test_frame_body_still_arriving_needs_more() {
    assert_eq!(frame_status(&vec![0x05, 1, 2]), FrameStatus::NeedMore);
}

#[test]
fn test_frame_exactly_complete() {
    assert_eq!(
        frame_status(&vec![0x05, 1, 2, 3, 4, 5]),
        FrameStatus::Complete(6)
    );
}

#[test]
fn test_frame_complete_with_trailing_bytes() {
    assert_eq!(
        frame_status(&vec![0x02, 9, 9, 7, 7]),
        FrameStatus::Complete(3)
    );
}

#[test]
fn test_frame_real_handshake() {
    // A real framed handshake: length prefix 16, then 16 body bytes.
    let mut buf = vec![0x10];
    buf.extend_from_slice(&[
        0x00, 0xf7, 0x05, 0x09, 0x6c, 0x6f, 0x63, 0x61, 0x6c, 0x68, 0x6f, 0x73, 0x74, 0x63, 0xdd,
        0x01,
    ]);
    assert_eq!(frame_status(&buf), FrameStatus::Complete(17));
}

#[test]
fn test_frame_overlong_prefix_unframed() {
    assert_eq!(
        frame_status(&vec![0x80, 0x80, 0x80, 0x80, 0x80, 0x01]),
        FrameStatus::Unframed
    );
}

#[test]
fn test_cache_hit_for_identical_bytes_twice() {
    let mut cache = ResponseCache::new();
    let message = vec![0x02, 0x10, 0x20];
    let response = vec![0x01, 0xff];
    cache.insert(message.clone(), response.clone());

    // Two sessions send byte-identical initial messages: both are served
    // the cached bytes.
    let first = cache.get(&vec![0x02, 0x10, 0x20]);
    assert_eq!(first, Some(&response));
    let second = cache.get(&vec![0x02, 0x10, 0x20]);
    assert_eq!(second, Some(&response));
}

#[test]
fn test_cache_miss_on_single_byte_difference() {
    let mut cache = ResponseCache::new();
    cache.insert(vec![0x02, 0x10, 0x20], vec![0x01, 0xff]);
    assert_eq!(cache.get(&vec![0x02, 0x10, 0x21]), None);
    assert_eq!(cache.get(&vec![0x02, 0x10]), None);
    assert_eq!(cache.get(&vec![0x02, 0x10, 0x20, 0x00]), None);
}

#[test]
fn test_cache_empty_has_nothing() {
    let cache = ResponseCache::new();
    assert_eq!(cache.get(&vec![]), None);
    assert_eq!(cache.get(&vec![0x00]), None);
}

#[test]
fn test_cache_newer_entry_shadows_older() {
    let mut cache = ResponseCache::new();
    cache.insert(vec![0x01], vec![0xaa]);
    cache.insert(vec![0x01], vec![0xbb]);
    assert_eq!(cache.get(&vec![0x01]), Some(&vec![0xbb]));
}

#[test]
fn test_cache_distinct_keys_coexist() {
    let mut cache = ResponseCache::new();
    cache.insert(vec![0x01], vec![0xaa]);
    cache.insert(vec![0x02], vec![0xbb]);
    assert_eq!(cache.get(&vec![0x01]), Some(&vec![0xaa]));
    assert_eq!(cache.get(&vec![0x02]), Some(&vec![0xbb]));
}
