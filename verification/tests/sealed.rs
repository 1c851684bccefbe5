//! Finding sealed segments among the files of a directory.

use dial9_tokio_telemetry::telemetry::rotating_writer::{active_path, file_path};
use dial9_tokio_telemetry::worker::sealed::{find_sealed_segments, parse_segment_index};

fn names(list: &[&str]) -> Vec<String> {
    list.iter().map(|s| s.to_string()).collect()
}

#[test]
fn finds_sealed_ignores_active() {
    let dir = names(&["trace.0.bin", "trace.1.bin", "trace.2.bin.active"]);
    let segments = find_sealed_segments(&dir, "trace");
    assert_eq!(segments.len(), 2);
    assert_eq!(segments[0].index, 0);
    assert_eq!(segments[1].index, 1);
}

#[test]
fn sorted_oldest_first() {
    let dir = names(&["trace.5.bin", "trace.2.bin", "trace.9.bin"]);
    let segments = find_sealed_segments(&dir, "trace");
    let indices: Vec<u32> = segments.iter().map(|s| s.index).collect();
    assert_eq!(indices, vec![2, 5, 9]);
    assert_eq!(segments[0].path, "trace.2.bin");
}

#[test]
fn ignores_unrelated_files() {
    let dir = names(&["trace.0.bin", "other.0.bin", "trace.txt", "readme.md"]);
    let segments = find_sealed_segments(&dir, "trace");
    assert_eq!(segments.len(), 1);
    assert_eq!(segments[0].index, 0);
}

#[test]
fn empty_directory() {
    let segments = find_sealed_segments(&Vec::new(), "trace");
    assert!(segments.is_empty());
}

#[test]
fn parse_segment_index_valid() {
    assert_eq!(parse_segment_index("trace.0.bin", "trace"), Some(0));
    assert_eq!(parse_segment_index("trace.42.bin", "trace"), Some(42));
    assert_eq!(parse_segment_index("my-app.100.bin", "my-app"), Some(100));
}

#[test]
fn parse_segment_index_invalid() {
    assert_eq!(parse_segment_index("trace.0.bin.active", "trace"), None);
    assert_eq!(parse_segment_index("trace.bin", "trace"), None);
    assert_eq!(parse_segment_index("other.0.bin", "trace"), None);
    assert_eq!(parse_segment_index("trace.abc.bin", "trace"), None);
}

#[test]
fn parse_segment_index_edges() {
    assert_eq!(parse_segment_index("trace.4294967295.bin", "trace"), Some(u32::MAX));
    assert_eq!(parse_segment_index("trace.4294967296.bin", "trace"), None);
    assert_eq!(parse_segment_index("trace.+7.bin", "trace"), Some(7));
    assert_eq!(parse_segment_index("trace.-7.bin", "trace"), None);
    assert_eq!(parse_segment_index("trace..bin", "trace"), None);
    assert_eq!(parse_segment_index("trace", "trace"), None);
    assert_eq!(parse_segment_index("trace.007.bin", "trace"), Some(7));
}

#[test]
fn writer_names_parse_back() {
    for i in [0u32, 9, 10, 12345, u32::MAX - 1] {
        let stem = "my.app".to_string();
        assert_eq!(parse_segment_index(&file_path(&stem, i), &stem), Some(i));
        assert_eq!(parse_segment_index(&active_path(&stem, i), &stem), None);
    }
}

#[test]
fn equal_indices_keep_their_order() {
    let dir = names(&["trace.7.bin", "trace.007.bin", "trace.1.bin"]);
    let found: Vec<String> =
        find_sealed_segments(&dir, "trace").into_iter().map(|s| s.path).collect();
    assert_eq!(found, vec!["trace.1.bin", "trace.7.bin", "trace.007.bin"]);
}
