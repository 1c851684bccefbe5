//! The worker loops and the upload pipeline.

use dial9_tokio_telemetry::background_task::pipeline::{
    compress, compressed_or_none, CompressedSegment, FileRead, Pipeline, PipelineStep,
};
use dial9_tokio_telemetry::background_task::uploader::{
    detect_bucket_region, region_plan, HeadBucketReply, RegionPlan, S3Uploader, UploadOutcome,
};
use dial9_tokio_telemetry::background_task::worker_loop as background;
use dial9_tokio_telemetry::background_task::BackgroundTaskConfig;
use dial9_tokio_telemetry::time::Duration;
use dial9_tokio_telemetry::worker::s3::{S3Config, UploadAction, UploadState};
use dial9_tokio_telemetry::worker::sealed::SealedSegment;
use dial9_tokio_telemetry::worker::trace_path::{
    dir_and_stem, dir_or_here, nonempty_stem_or_trace, stem_or_trace,
};
use dial9_tokio_telemetry::worker::worker_loop::{
    LoopAction, LoopEvent, RealWorkerDeps, WorkerLoop,
};
use dial9_tokio_telemetry::worker::WorkerConfig;
use std::io::Read;

fn segment(index: u32) -> SealedSegment {
    SealedSegment { path: format!("trace.{index}.bin"), index }
}

fn s3_config() -> S3Config {
    S3Config::builder()
        .bucket("traces-bucket")
        .service_name("svc")
        .instance_path("host")
        .boot_id("boot")
        .build()
}

/// Runs a loop until it returns. `scans` are the results of the scans;
/// `stop_after` how many polls come before the stop.
fn run(mut worker: WorkerLoop, scans: Vec<Option<Vec<u32>>>, stop_after: usize) -> Vec<String> {
    let mut log = Vec::new();
    let mut scans = scans.into_iter();
    let mut checks = 0;
    loop {
        let event = match worker.action() {
            LoopAction::CheckStop => {
                checks += 1;
                LoopEvent::Stop(checks > stop_after)
            }
            LoopAction::Scan { dir, stem } => {
                log.push(format!("scan {dir}/{stem}"));
                let found = scans.next().unwrap();
                LoopEvent::Scanned(found.map(|v| v.into_iter().map(segment).collect()))
            }
            LoopAction::Upload(s) => {
                log.push(format!("upload {}", s.path));
                LoopEvent::Uploaded
            }
            LoopAction::Sleep(d) => {
                log.push(format!("sleep {}", d.as_nanos() / 1_000_000));
                LoopEvent::Slept
            }
            LoopAction::Return => {
                return log;
            }
        };
        worker.on_event(event);
    }
}

#[test]
fn loop_polls_sleeps_and_drains_on_stop() {
    let worker = WorkerLoop::new("/tmp".into(), "trace".into(), Duration::from_millis(50));
    let log = run(worker, vec![Some(vec![0, 1]), None, Some(vec![2, 3])], 2);
    assert_eq!(
        log,
        vec![
            "scan /tmp/trace",
            "upload trace.0.bin",
            "upload trace.1.bin",
            "sleep 50",
            "scan /tmp/trace",
            "sleep 50",
            "scan /tmp/trace",
            "upload trace.2.bin",
            "upload trace.3.bin",
        ]
    );
}

#[test]
fn loop_that_is_stopped_at_once_still_drains() {
    let worker = WorkerLoop::new("d".into(), "t".into(), Duration::from_secs(1));
    assert_eq!(run(worker, vec![Some(vec![7])], 0), vec!["scan d/t", "upload trace.7.bin"]);
    let worker = WorkerLoop::new("d".into(), "t".into(), Duration::from_secs(1));
    assert_eq!(run(worker, vec![None], 0), vec!["scan d/t"]);
}

#[test]
fn unexpected_events_change_nothing() {
    let mut worker = WorkerLoop::new("d".into(), "t".into(), Duration::from_secs(1));
    worker.on_event(LoopEvent::Uploaded);
    worker.on_event(LoopEvent::Slept);
    assert!(matches!(worker.action(), LoopAction::CheckStop));
}

#[test]
fn background_loop_hands_segments_to_the_pipeline() {
    let config = BackgroundTaskConfig::builder()
        .trace_path("trace.bin")
        .poll_interval(Duration::from_millis(20))
        .s3(s3_config())
        .build();
    let mut worker = background::WorkerLoop::from_config(&config);
    match worker.on_event(background::LoopEvent::Stop(false)) {
        Some(background::LoopAction::Scan { stem, .. }) => assert_eq!(stem, "trace"),
        other => panic!("expected a scan, got {other:?}"),
    }
    let found = vec![segment(4), segment(5)];
    match worker.on_event(background::LoopEvent::Scanned(Some(found))) {
        Some(background::LoopAction::Process(segments)) => assert_eq!(segments.len(), 2),
        other => panic!("expected work, got {other:?}"),
    }
    match worker.on_event(background::LoopEvent::Processed) {
        Some(background::LoopAction::Sleep(d)) => assert_eq!(d, Duration::from_millis(20)),
        other => panic!("expected a pause, got {other:?}"),
    }
    assert!(worker.on_event(background::LoopEvent::Processed).is_none());
    worker.on_event(background::LoopEvent::Slept);
    worker.on_event(background::LoopEvent::Stop(true));
    worker.on_event(background::LoopEvent::Scanned(Some(Vec::new())));
    assert!(matches!(
        worker.on_event(background::LoopEvent::Processed),
        Some(background::LoopAction::Return)
    ));
}

#[test]
fn config_defaults_and_getters() {
    let config = WorkerConfig::builder().trace_path("/var/traces/app.bin").s3(s3_config()).build();
    assert_eq!(config.poll_interval(), Duration::from_secs(1));
    assert_eq!(config.trace_dir(), "/var/traces");
    assert_eq!(config.trace_stem(), "app");
    assert_eq!(config.s3().bucket(), "traces-bucket");
    let config = BackgroundTaskConfig::builder().trace_path("/").s3(s3_config()).build();
    assert_eq!(config.trace_stem(), "trace");
    assert_eq!(config.poll_interval(), Duration::from_secs(1));
    assert_eq!(config.trace_dir(), ".");
}

#[test]
fn ordinary_paths_have_a_parent_and_a_stem() {
    let expected = [
        ("/var/traces/app.tar.gz", "/var/traces", "app.tar"),
        ("traces/.hidden/app", "traces/.hidden", "app"),
        ("traces/.bin", "traces", ".bin"),
        ("traces/app.", "traces", "app"),
        ("trace.bin", "", "trace"),
    ];
    for (path, dir, stem) in expected {
        let config = WorkerConfig::builder().trace_path(path).s3(s3_config()).build();
        assert_eq!(config.trace_dir(), dir);
        assert_eq!(config.trace_stem(), stem);
        let config = BackgroundTaskConfig::builder().trace_path(path).s3(s3_config()).build();
        assert_eq!(config.trace_dir(), dir);
        assert_eq!(config.trace_stem(), stem);
    }
}

#[test]
fn paths_without_parts_have_defaults() {
    assert_eq!(dir_or_here(None), ".");
    assert_eq!(dir_or_here(Some("/x".into())), "/x");
    assert_eq!(stem_or_trace(None), "trace");
    assert_eq!(stem_or_trace(Some(String::new())), "");
    assert_eq!(nonempty_stem_or_trace(Some(String::new())), "trace");
    assert_eq!(nonempty_stem_or_trace(Some("app".into())), "app");
}

#[test]
fn pipeline_overlaps_at_most_two_uploads() {
    let outcomes = [
        Some(UploadOutcome::Uploaded),
        None,
        Some(UploadOutcome::Uploaded),
        Some(UploadOutcome::Failed),
    ];
    let mut pipeline = Pipeline::new((0..4).map(segment).collect(), true);
    let mut running: Vec<usize> = Vec::new();
    let mut most = 0;
    let mut compressed = Vec::new();
    loop {
        match pipeline.step() {
            PipelineStep::Compress(at) => {
                compressed.push(pipeline.segment(at).unwrap().index);
                let result = if at == 1 {
                    None
                } else {
                    Some(CompressedSegment { data: vec![0; at + 1], epoch_secs: 9 })
                };
                pipeline.compressed(100, result);
            }
            PipelineStep::StartUpload => {
                let (at, segment, data) = pipeline.start_upload();
                assert_eq!(segment.index as usize, at);
                assert_eq!(data.data.len(), at + 1);
                running.push(at);
                most = most.max(running.len());
            }
            PipelineStep::AwaitUpload => {
                let at = running.pop().unwrap();
                pipeline.upload_ended(at, outcomes[at]);
            }
            PipelineStep::Done => break,
        }
    }
    assert_eq!(compressed, vec![0, 1, 2, 3]);
    assert_eq!(most, 2);
    let mut records = pipeline.records().clone();
    records.sort_by_key(|r| r.at);
    let summary: Vec<(u32, usize, u64, u64)> = records
        .iter()
        .map(|r| {
            (
                r.metrics.segment_index,
                r.metrics.success,
                r.metrics.uncompressed_size,
                r.metrics.compressed_size,
            )
        })
        .collect();
    assert_eq!(summary, vec![(0, 1, 100, 1), (1, 0, 100, 0), (2, 1, 100, 3), (3, 0, 100, 4)]);
}

#[test]
fn pipeline_without_uploader_does_nothing() {
    let pipeline = Pipeline::new(vec![segment(0)], false);
    assert_eq!(pipeline.step(), PipelineStep::Done);
    assert!(pipeline.records().is_empty());
}

#[test]
fn end_of_an_unknown_upload_is_ignored() {
    let mut pipeline = Pipeline::new(vec![segment(0)], true);
    pipeline.upload_ended(0, Some(UploadOutcome::Uploaded));
    assert_eq!(pipeline.step(), PipelineStep::Compress(0));
    assert!(pipeline.records().is_empty());
}

#[test]
fn only_uploads_count_as_success() {
    let outcomes = [
        Some(UploadOutcome::FileMissing),
        Some(UploadOutcome::Failed),
        None,
        Some(UploadOutcome::Uploaded),
    ];
    for outcome in outcomes {
        let mut pipeline = Pipeline::new(vec![segment(7)], true);
        pipeline.compressed(10, Some(CompressedSegment { data: vec![1, 2], epoch_secs: 9 }));
        pipeline.start_upload();
        pipeline.upload_ended(0, outcome);
        assert_eq!(pipeline.step(), PipelineStep::Done);
        assert_eq!(pipeline.records().len(), 1);
        let metrics = &pipeline.records()[0].metrics;
        let uploaded = outcome == Some(UploadOutcome::Uploaded);
        assert_eq!(metrics.success, uploaded as usize);
        assert_eq!(metrics.segment_index, 7);
        assert_eq!(metrics.uncompressed_size, 10);
        assert_eq!(metrics.compressed_size, 2);
    }
}

#[test]
fn compress_skips_missing_and_unreadable_files() {
    assert!(compress(5, FileRead::Missing).is_none());
    assert!(compress(5, FileRead::Failed).is_none());
    let c = compress(5, FileRead::Data(b"data".to_vec())).unwrap();
    assert_eq!(c.epoch_secs, 5);
    assert_ne!(c.data, b"data");
    let mut plain = String::new();
    flate2::read::GzDecoder::new(&c.data[..]).read_to_string(&mut plain).unwrap();
    assert_eq!(plain, "data");
    assert!(compress(5, FileRead::Data(Vec::new())).is_some());
    assert!(compressed_or_none(5, Err(std::io::Error::other("x"))).is_none());
}

#[test]
fn evicted_file_does_not_trip_circuit_breaker() {
    let mut uploader = S3Uploader::new(s3_config());
    uploader.upload_finished(UploadOutcome::FileMissing);
    assert!(uploader.is_closed(), "circuit breaker should stay closed after NotFound");
    uploader.upload_finished(UploadOutcome::Failed);
    assert!(!uploader.is_closed());
    uploader.upload_finished(UploadOutcome::FileMissing);
    assert!(!uploader.is_closed());
    uploader.upload_finished(UploadOutcome::Uploaded);
    assert!(uploader.is_closed());
}

#[test]
fn open_breaker_holds_uploads_back() {
    let mut uploader = S3Uploader::new(s3_config());
    let data = || CompressedSegment { data: vec![1, 2], epoch_secs: 0 };
    match uploader.upload_compressed(&segment(3), data()) {
        Some((UploadState::Sending(key), UploadAction::Send(request))) => {
            assert_eq!(key, "1970-01-01/00/svc/host/0-3.bin.gz");
            assert_eq!(request.key, key);
            assert_eq!(request.body, vec![1, 2]);
        }
        other => panic!("expected a request, got {other:?}"),
    }
    uploader.upload_finished(UploadOutcome::Failed);
    assert!(uploader.upload_compressed(&segment(3), data()).is_none());
    let late = Duration::from_secs(1);
    assert!(uploader.upload_compressed_after(&segment(3), data(), late).is_some());
}

#[test]
fn worker_deps_follow_the_connection() {
    let mut deps = RealWorkerDeps::new(dial9_tokio_telemetry::worker::s3::S3Uploader::new(s3_config()));
    let (epoch, _) = deps.begin(&segment(0)).expect("healthy");
    assert!(epoch > 1_600_000_000);
    deps.finish(&UploadState::Failed);
    assert!(deps.begin(&segment(0)).is_none());
    assert!(deps.begin_after(&segment(0), Duration::from_millis(999)).is_none());
    assert!(deps.begin_after(&segment(0), Duration::from_millis(1000)).is_some());
    deps.finish(&UploadState::Done("key".into()));
    assert!(deps.begin(&segment(0)).is_some());
}

#[test]
fn region_is_configured_or_detected() {
    match region_plan(&s3_config()) {
        RegionPlan::Ask(bucket) => assert_eq!(bucket, "traces-bucket"),
        other => panic!("expected a question, got {other:?}"),
    }
    let config = S3Config::builder()
        .bucket("b")
        .service_name("s")
        .instance_path("i")
        .boot_id("x")
        .region("eu-west-1")
        .build();
    match region_plan(&config) {
        RegionPlan::Use(region) => assert_eq!(region, "eu-west-1"),
        other => panic!("expected the region, got {other:?}"),
    }
    let found = HeadBucketReply::Found(Some("eu-north-1".into()));
    assert_eq!(detect_bucket_region(found), "eu-north-1");
    assert_eq!(detect_bucket_region(HeadBucketReply::Found(None)), "us-east-1");
    let redirect = HeadBucketReply::Failed(Some("ap-south-1".into()));
    assert_eq!(detect_bucket_region(redirect), "ap-south-1");
    assert_eq!(detect_bucket_region(HeadBucketReply::Failed(None)), "us-east-1");
}

#[test]
fn wait_counts_from_the_time_of_the_failure() {
    let now = std::time::Instant::now();
    let earlier = now.checked_sub(std::time::Duration::from_millis(1500)).unwrap();
    let data = || CompressedSegment { data: vec![1], epoch_secs: 1 };
    let mut uploader = S3Uploader::new(s3_config());
    uploader.upload_finished_at(UploadOutcome::Failed, earlier);
    assert!(uploader.upload_compressed(&segment(3), data()).is_some());
    uploader.upload_finished_at(UploadOutcome::Failed, now);
    assert!(uploader.upload_compressed(&segment(3), data()).is_none());
    uploader.upload_finished_at(UploadOutcome::FileMissing, earlier);
    assert!(uploader.upload_compressed(&segment(3), data()).is_none());
    uploader.upload_finished_at(UploadOutcome::Uploaded, now);
    assert!(uploader.is_closed());

    let mut deps =
        RealWorkerDeps::new(dial9_tokio_telemetry::worker::s3::S3Uploader::new(s3_config()));
    deps.finish_at(&UploadState::Failed, earlier);
    assert!(deps.begin(&segment(0)).is_some());
    deps.finish_at(&UploadState::Failed, now);
    assert!(deps.begin(&segment(0)).is_none());
}

#[test]
fn writer_takes_directory_and_stem_from_its_base_path() {
    for (base, dir, stem) in [
        ("/var/traces/app.tar.gz", "/var/traces", "app.tar"),
        ("trace.bin", "", "trace"),
        ("", ".", ""),
        ("traces/..", "traces", ""),
    ] {
        assert_eq!(dir_and_stem(base), (dir.to_string(), stem.to_string()), "{base}");
    }
    let config = WorkerConfig::builder().trace_path("").s3(s3_config()).build();
    assert_eq!((config.trace_dir().as_str(), config.trace_stem().as_str()), (".", "trace"));
    let config = BackgroundTaskConfig::builder().trace_path("").s3(s3_config()).build();
    assert_eq!((config.trace_dir().as_str(), config.trace_stem().as_str()), (".", "trace"));
}
