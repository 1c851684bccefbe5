//! Object keys, compression and the steps of an upload.

use dial9_tokio_telemetry::worker::calendar::civil_from_days;
use dial9_tokio_telemetry::worker::s3::{
    date_hour_from_epoch, gzip_compress, S3Config, S3Uploader, UploadAction, UploadEvent,
    UploadState,
};
use dial9_tokio_telemetry::worker::sealed::SealedSegment;
use flate2::read::GzDecoder;
use std::io::Read;

fn make_config() -> S3Config {
    S3Config::builder()
        .bucket("test-bucket")
        .prefix("traces")
        .service_name("checkout-api")
        .instance_path("us-east-1/i-0abc123")
        .boot_id("test-boot-id")
        .build()
}

fn make_segment(path: &str, index: u32) -> SealedSegment {
    SealedSegment { path: path.to_string(), index }
}

fn gunzip(bytes: &[u8]) -> Vec<u8> {
    let mut decoder = GzDecoder::new(bytes);
    let mut decompressed = Vec::new();
    decoder.read_to_end(&mut decompressed).unwrap();
    decompressed
}

#[test]
fn object_key_holds_prefix_hour_and_index() {
    let config = make_config();
    let segment = make_segment("/tmp/trace.3.bin", 3);
    // 2025-03-05 21:10:00 UTC
    assert_eq!(
        config.object_key(&segment, 1741209000),
        "traces/2025-03-05/21/checkout-api/us-east-1/i-0abc123/1741209000-3.bin.gz"
    );
    // two hours earlier
    assert_eq!(
        config.object_key(&segment, 1741201800),
        "traces/2025-03-05/19/checkout-api/us-east-1/i-0abc123/1741201800-3.bin.gz"
    );
}

#[test]
fn object_key_without_prefix_starts_with_date() {
    let config = S3Config::builder()
        .bucket("my-traces")
        .service_name("checkout-api")
        .instance_path("us-east-1/i-0abc123")
        .boot_id("test-boot-id")
        .build();
    let segment = make_segment("/tmp/trace.0.bin", 0);
    assert_eq!(
        config.object_key(&segment, 1741209000),
        "2025-03-05/21/checkout-api/us-east-1/i-0abc123/1741209000-0.bin.gz"
    );
}

#[test]
fn builder_prefix_defaults_to_empty() {
    let config = S3Config::builder()
        .bucket("bucket")
        .service_name("svc")
        .instance_path("path")
        .boot_id("bid")
        .build();
    let segment = make_segment("/tmp/trace.0.bin", 0);
    let key = config.object_key(&segment, 1741209000);
    // No prefix → date-hour is first component
    assert!(key.starts_with("2025-03-05/"));
    assert_eq!(config.bucket(), "bucket");
    assert_eq!(config.region(), None);
}

#[test]
fn date_hour_of_notable_times() {
    assert_eq!(date_hour_from_epoch(0), "1970-01-01/00");
    assert_eq!(date_hour_from_epoch(86399), "1970-01-01/23");
    assert_eq!(date_hour_from_epoch(951782400), "2000-02-29/00");
    assert_eq!(date_hour_from_epoch(951868800), "2000-03-01/00");
    assert_eq!(date_hour_from_epoch(4107542400), "2100-03-01/00");
    assert_eq!(date_hour_from_epoch(253402300799), "9999-12-31/23");
    assert_eq!(date_hour_from_epoch(253402300800), "10000-01-01/00");
    assert_eq!(date_hour_from_epoch(i64::MAX as u64), "292277026596-12-04/15");
    assert_eq!(date_hour_from_epoch(1 << 63), "292277026596-12-04/15");
    assert_eq!(date_hour_from_epoch(u64::MAX), "584554051223-11-09/07");
}

#[test]
fn civil_from_days_knows_leap_days() {
    let leap = civil_from_days(11016);
    assert_eq!((leap.year, leap.month, leap.day), (2000, 2, 29));
    let before = civil_from_days(-1);
    assert_eq!((before.year, before.month, before.day), (1969, 12, 31));
}

#[test]
fn gzip_compress_roundtrips() {
    let original = b"hello world, this is trace data that should compress well!";
    let compressed = gzip_compress(original).unwrap();
    assert_ne!(&compressed[..], &original[..]);
    assert_eq!(gunzip(&compressed), original);
}

#[test]
fn gzip_compress_empty_input() {
    let compressed = gzip_compress(b"").unwrap();
    assert!(gunzip(&compressed).is_empty());
}

#[test]
fn upload_reads_sends_deletes_and_finishes() {
    let uploader = S3Uploader::new(make_config());
    let segment = make_segment("trace.0.bin", 0);
    let (state, action) = uploader.begin(&segment);
    match action {
        UploadAction::Read(path) => assert_eq!(path, "trace.0.bin"),
        other => panic!("expected a read, got {other:?}"),
    }
    let data = b"trace data here".to_vec();
    let (state, action) =
        uploader.upload_and_delete(&segment, 1741209000, state, UploadEvent::FileRead(data));
    let key = match action {
        UploadAction::Send(request) => request.key,
        other => panic!("expected a request, got {other:?}"),
    };
    assert_eq!(
        key,
        "traces/2025-03-05/21/checkout-api/us-east-1/i-0abc123/1741209000-0.bin.gz"
    );
    let (state, action) =
        uploader.upload_and_delete(&segment, 1741209000, state, UploadEvent::Uploaded);
    match action {
        UploadAction::Delete(path) => assert_eq!(path, "trace.0.bin"),
        other => panic!("expected a deletion, got {other:?}"),
    }
    let (state, action) =
        uploader.upload_and_delete(&segment, 1741209000, state, UploadEvent::FileRemoved);
    assert!(matches!(state, UploadState::Done(_)));
    match action {
        UploadAction::Finish(finished) => assert_eq!(finished, key),
        other => panic!("expected the end, got {other:?}"),
    }
}

#[test]
fn uploaded_object_contains_gzipped_original_data() {
    let uploader = S3Uploader::new(make_config());
    let original_data = b"important trace data that must survive the roundtrip";
    let segment = make_segment("trace.5.bin", 5);
    let (state, _) = uploader.begin(&segment);
    let (_, action) = uploader.upload_and_delete(
        &segment,
        1741209000,
        state,
        UploadEvent::FileRead(original_data.to_vec()),
    );
    match action {
        UploadAction::Send(request) => {
            assert_eq!(request.bucket, "test-bucket");
            assert_eq!(request.content_encoding, "gzip");
            assert_eq!(request.content_type, "application/octet-stream");
            assert_eq!(gunzip(&request.body), original_data);
        }
        other => panic!("expected a request, got {other:?}"),
    }
}

#[test]
fn upload_sets_s3_object_metadata_headers() {
    let config = S3Config::builder()
        .bucket("test-bucket")
        .prefix("traces")
        .service_name("checkout-api")
        .instance_path("us-east-1/i-0abc123")
        .boot_id("a3f7c2d1-dead-beef-1234-567890abcdef")
        .build();
    let uploader = S3Uploader::new(config);
    let segment = make_segment("trace.3.bin", 3);
    let request = uploader.request(&segment, 1741209000, Vec::new());
    let meta: std::collections::HashMap<String, String> = request.metadata.into_iter().collect();
    assert_eq!(meta.len(), 5);
    assert_eq!(meta.get("service").unwrap(), "checkout-api");
    assert_eq!(meta.get("boot-id").unwrap(), "a3f7c2d1-dead-beef-1234-567890abcdef");
    assert_eq!(meta.get("segment-index").unwrap(), "3");
    assert_eq!(meta.get("start-time").unwrap(), "1741209000");
    assert_eq!(meta.get("host").unwrap(), "us-east-1/i-0abc123");
}

#[test]
fn upload_failure_does_not_delete_local_file() {
    let uploader = S3Uploader::new(make_config());
    let segment = make_segment("nonexistent.bin", 0);

    // The file cannot be read.
    let (state, _) = uploader.begin(&segment);
    let (state, action) =
        uploader.upload_and_delete(&segment, 1741209000, state, UploadEvent::ActionFailed);
    assert!(matches!(action, UploadAction::Abort), "expected upload to fail for missing file");
    assert!(matches!(state, UploadState::Failed));

    // The request fails.
    let (state, _) = uploader.begin(&segment);
    let (state, _) = uploader.upload_and_delete(
        &segment,
        1741209000,
        state,
        UploadEvent::FileRead(b"should survive".to_vec()),
    );
    let (_, action) =
        uploader.upload_and_delete(&segment, 1741209000, state, UploadEvent::ActionFailed);
    assert!(matches!(action, UploadAction::Abort));
}

#[test]
fn failed_compression_sends_nothing() {
    let uploader = S3Uploader::new(make_config());
    let segment = make_segment("trace.0.bin", 0);
    let (state, action) = uploader.compressed(&segment, 0, Err(std::io::Error::other("disk")));
    assert!(matches!(state, UploadState::Failed));
    assert!(matches!(action, UploadAction::Abort));
}
