//! The pipeline that compresses segments one after the other and uploads up to
//! two of them at a time.
//!
//! The pipeline itself only decides. It says what to do next; whoever runs it
//! does that and hands back what came of it.

use crate::background_task::uploader::UploadOutcome;
use crate::worker::s3::{gunzipped, gzip_compress};
use crate::worker::sealed::{segment_models, SealedSegment, SegmentModel};
use vstd::prelude::*;

verus! {

/// How many uploads may run at the same time.
pub const UPLOAD_PERMITS: usize = 2;

/// Compressed segment data ready for upload.
#[derive(Debug)]
pub struct CompressedSegment {
    pub data: Vec<u8>,
    pub epoch_secs: u64,
}

/// The value of a [`CompressedSegment`].
#[verifier::ext_equal]
pub struct CompressedModel {
    pub data: Seq<u8>,
    pub epoch_secs: u64,
}

impl View for CompressedSegment {
    type V = CompressedModel;

    open spec fn view(&self) -> CompressedModel {
        CompressedModel { data: self.data@, epoch_secs: self.epoch_secs }
    }
}

/// The value of a segment that may have been skipped.
pub open spec fn compressed_model(c: Option<CompressedSegment>) -> Option<CompressedModel> {
    match c {
        Some(c) => Some(c@),
        None => None,
    }
}

/// What is known of the upload of a segment when it is over.
#[derive(Debug, Clone, Copy, PartialEq, Eq, Structural)]
pub struct SegmentUploadMetrics {
    /// 1 on success, 0 on failure.
    pub success: usize,
    pub segment_index: u32,
    pub uncompressed_size: u64,
    pub compressed_size: u64,
}

/// The record of the segment at some place of the list.
#[derive(Debug, Clone, Copy, PartialEq, Eq, Structural)]
pub struct SegmentRecord {
    pub at: usize,
    pub metrics: SegmentUploadMetrics,
}

/// What came of an attempt to read a segment's file.
#[derive(Debug)]
pub enum FileRead {
    /// What the file holds.
    Data(Vec<u8>),
    /// The file is gone: the segment was evicted.
    Missing,
    /// The file could not be read.
    Failed,
}

/// The compressed segment, if the encoder has not failed.
pub fn compressed_or_none(epoch_secs: u64, compressed: std::io::Result<Vec<u8>>) -> (c: Option<
    CompressedSegment,
>)
    ensures
        match compressed {
            Ok(data) => c matches Some(c) && c@ == (CompressedModel { data: data@, epoch_secs }),
            Err(_) => c is None,
        },
{
    match compressed {
        Ok(data) => Some(CompressedSegment { data, epoch_secs }),
        Err(_) => None,
    }
}

/// Compress a segment of which the file was read. A segment whose file is gone
/// or cannot be read is skipped.
pub fn compress(epoch_secs: u64, read: FileRead) -> (c: Option<CompressedSegment>)
    ensures
        match read {
            FileRead::Data(data) => c matches Some(c) && c.epoch_secs == epoch_secs && gunzipped(
                c.data@,
            ) == Some(data@),
            _ => c is None,
        },
{
    match read {
        FileRead::Data(data) => compressed_or_none(epoch_secs, gzip_compress(data.as_slice())),
        _ => None,
    }
}

/// A compressed segment that waits for its upload to start.
#[derive(Debug)]
struct Waiting {
    record: SegmentRecord,
    compressed: CompressedSegment,
}

/// A run of the pipeline over a list of segments.
#[derive(Debug)]
pub struct Pipeline {
    segments: Vec<SealedSegment>,
    next: usize,
    waiting: Option<Waiting>,
    in_flight: Vec<SegmentRecord>,
    records: Vec<SegmentRecord>,
}

/// The value of a [`Pipeline`].
#[verifier::ext_equal]
pub struct PipelineModel {
    /// The segments to upload.
    pub segments: Seq<SegmentModel>,
    /// How many of them have been through the compression.
    pub next: nat,
    /// The one that is compressed and waits for a permit.
    pub waiting: Option<(SegmentRecord, CompressedModel)>,
    /// The uploads that run.
    pub in_flight: Seq<SegmentRecord>,
    /// The records of the segments that are through, in the order in which
    /// they were.
    pub records: Seq<SegmentRecord>,
}

/// What is to be done next.
#[derive(Debug, Clone, Copy, PartialEq, Eq, Structural)]
pub enum PipelineStep {
    /// Compress the segment at this place.
    Compress(usize),
    /// Start the upload of the waiting segment.
    StartUpload,
    /// Wait until an upload ends.
    AwaitUpload,
    /// Nothing any more.
    Done,
}

/// Compression goes on while no compressed segment waits for a permit. When all
/// are compressed, the uploads that run are waited for.
pub open spec fn pipeline_step(p: PipelineModel) -> PipelineStep {
    if p.waiting is Some {
        if p.in_flight.len() < UPLOAD_PERMITS {
            PipelineStep::StartUpload
        } else {
            PipelineStep::AwaitUpload
        }
    } else if p.next < p.segments.len() {
        PipelineStep::Compress(p.next as usize)
    } else if p.in_flight.len() > 0 {
        PipelineStep::AwaitUpload
    } else {
        PipelineStep::Done
    }
}

/// The pipeline after the next segment, with a file of `size` bytes, was
/// compressed, or skipped if `result` is `None`.
pub open spec fn after_compression(
    p: PipelineModel,
    size: u64,
    result: Option<CompressedModel>,
) -> PipelineModel {
    let record = SegmentRecord {
        at: p.next as usize,
        metrics: SegmentUploadMetrics {
            success: 0,
            segment_index: p.segments[p.next as int].index,
            uncompressed_size: size,
            compressed_size: match result {
                Some(c) => c.data.len() as u64,
                None => 0,
            },
        },
    };
    match result {
        Some(c) => PipelineModel { next: p.next + 1, waiting: Some((record, c)), ..p },
        None => PipelineModel { next: p.next + 1, records: p.records.push(record), ..p },
    }
}

/// The pipeline after the upload of the waiting segment was started.
pub open spec fn after_start(p: PipelineModel) -> PipelineModel {
    match p.waiting {
        Some(waiting) => PipelineModel {
            waiting: None,
            in_flight: p.in_flight.push(waiting.0),
            ..p
        },
        None => p,
    }
}

/// Whether an upload stored the segment. One without an outcome was held back
/// or broken off.
pub open spec fn is_uploaded(outcome: Option<UploadOutcome>) -> bool {
    outcome == Some(UploadOutcome::Uploaded)
}

/// The record of an upload that ended with `outcome`.
pub open spec fn ended(record: SegmentRecord, outcome: Option<UploadOutcome>) -> SegmentRecord {
    SegmentRecord {
        metrics: SegmentUploadMetrics {
            success: if is_uploaded(outcome) {
                1
            } else {
                0
            },
            ..record.metrics
        },
        ..record
    }
}

/// The pipeline after the `i`-th of the running uploads ended.
pub open spec fn after_end(
    p: PipelineModel,
    i: int,
    outcome: Option<UploadOutcome>,
) -> PipelineModel {
    PipelineModel {
        in_flight: p.in_flight.remove(i),
        records: p.records.push(ended(p.in_flight[i], outcome)),
        ..p
    }
}

/// The places of records.
pub open spec fn places(records: Seq<SegmentRecord>) -> Seq<usize> {
    records.map_values(|r: SegmentRecord| r.at)
}

/// The places of all segments that have been through the compression.
pub open spec fn accounted(p: PipelineModel) -> Seq<usize> {
    places(p.records) + places(p.in_flight) + (match p.waiting {
        Some(waiting) => seq![waiting.0.at],
        None => Seq::empty(),
    })
}

/// Whether a record belongs to the segment at its place.
pub open spec fn record_fits(p: PipelineModel, r: SegmentRecord) -> bool {
    r.at < p.next && r.metrics.segment_index == p.segments[r.at as int].index
}

/// How many records are of segments that were uploaded.
pub open spec fn successes(records: Seq<SegmentRecord>) -> nat
    decreases records.len(),
{
    if records.len() == 0 {
        0
    } else {
        successes(records.drop_last()) + (if records.last().metrics.success == 1 {
            1nat
        } else {
            0
        })
    }
}

/// What a run of the pipeline consists of.
pub enum PipelineEvent {
    /// The next segment was compressed or skipped.
    Compressed { size: u64, result: Option<CompressedModel> },
    /// The upload of the waiting segment started.
    Started,
    /// An upload ended: its place among those that ran, and its outcome.
    Ended { i: int, outcome: Option<UploadOutcome> },
}

/// Whether `event` is what the pipeline may meet next.
pub open spec fn may_happen(p: PipelineModel, event: PipelineEvent) -> bool {
    match event {
        PipelineEvent::Compressed { .. } => pipeline_step(p) is Compress,
        PipelineEvent::Started => pipeline_step(p) is StartUpload,
        PipelineEvent::Ended { i, .. } => 0 <= i < p.in_flight.len(),
    }
}

/// The pipeline after `event`.
pub open spec fn after_event(p: PipelineModel, event: PipelineEvent) -> PipelineModel {
    match event {
        PipelineEvent::Compressed { size, result } => after_compression(p, size, result),
        PipelineEvent::Started => after_start(p),
        PipelineEvent::Ended { i, outcome } => after_end(p, i, outcome),
    }
}

/// The pipeline after all of `events`.
pub open spec fn after_events(p: PipelineModel, events: Seq<PipelineEvent>) -> PipelineModel
    decreases events.len(),
{
    if events.len() == 0 {
        p
    } else {
        after_event(after_events(p, events.drop_last()), events.last())
    }
}

/// Whether each of `events` may happen when it does.
pub open spec fn is_run(p: PipelineModel, events: Seq<PipelineEvent>) -> bool
    decreases events.len(),
{
    events.len() == 0 || is_run(p, events.drop_last()) && may_happen(
        after_events(p, events.drop_last()),
        events.last(),
    )
}

/// How many of `events` are uploads that stored their segment.
pub open spec fn uploads(events: Seq<PipelineEvent>) -> nat
    decreases events.len(),
{
    if events.len() == 0 {
        0
    } else {
        uploads(events.drop_last()) + (match events.last() {
            PipelineEvent::Ended { outcome, .. } => if is_uploaded(outcome) {
                1nat
            } else {
                0
            },
            _ => 0,
        })
    }
}

/// A pipeline that has not begun.
pub open spec fn not_begun(segments: Seq<SegmentModel>) -> PipelineModel {
    PipelineModel {
        segments,
        next: 0,
        waiting: None,
        in_flight: Seq::empty(),
        records: Seq::empty(),
    }
}

/// What every step of a pipeline keeps: no more uploads run than there are
/// permits, and each segment that has been through the compression waits, is
/// being uploaded or has its record, and only one of these.
pub open spec fn pipeline_inv(p: PipelineModel) -> bool {
    &&& p.next <= p.segments.len() <= usize::MAX
    &&& p.in_flight.len() <= UPLOAD_PERMITS
    &&& accounted(p).no_duplicates()
    &&& accounted(p).len() == p.next
    &&& forall|i: int| 0 <= i < p.records.len() ==> record_fits(p, #[trigger] p.records[i])
    &&& forall|i: int| 0 <= i < p.in_flight.len() ==> record_fits(p, #[trigger] p.in_flight[i])
    &&& p.waiting matches Some(waiting) ==> record_fits(p, waiting.0)
}

impl View for Pipeline {
    type V = PipelineModel;

    closed spec fn view(&self) -> PipelineModel {
        PipelineModel {
            segments: segment_models(self.segments@),
            next: self.next as nat,
            waiting: match self.waiting {
                Some(waiting) => Some((waiting.record, waiting.compressed@)),
                None => None,
            },
            in_flight: self.in_flight@,
            records: self.records@,
        }
    }
}

/// A compressed segment keeps the pipeline's books.
pub proof fn lemma_compression_keeps_books(
    p: PipelineModel,
    size: u64,
    result: Option<CompressedModel>,
)
    requires
        pipeline_inv(p),
        pipeline_step(p) is Compress,
    ensures
        pipeline_inv(after_compression(p, size, result)),
{
    let q = after_compression(p, size, result);
    let new = p.next as usize;
    let before = accounted(p);
    assert(before =~= places(p.records) + places(p.in_flight));
    assert forall|i: int| 0 <= i < before.len() implies before[i] < p.next by {
        if i < p.records.len() {
            assert(record_fits(p, p.records[i]));
        } else {
            assert(record_fits(p, p.in_flight[i - p.records.len()]));
        }
    }
    assert forall|i: int| 0 <= i < q.in_flight.len() implies record_fits(
        q,
        #[trigger] q.in_flight[i],
    ) by {
        assert(record_fits(p, p.in_flight[i]));
    }
    assert forall|i: int| 0 <= i < q.records.len() implies record_fits(
        q,
        #[trigger] q.records[i],
    ) by {
        if i < p.records.len() {
            assert(record_fits(p, p.records[i]));
        }
    }
    match result {
        Some(c) => {
            assert(accounted(q) =~= before.push(new));
        },
        None => {
            assert(accounted(q) =~= places(p.records).push(new) + places(p.in_flight));
            assert forall|i: int, j: int|
                0 <= i < accounted(q).len() && 0 <= j < accounted(q).len() && i
                    != j implies accounted(q)[i] != accounted(q)[j] by {
                let n = p.records.len() as int;
                let i0 = if i > n {
                    i - 1
                } else {
                    i
                };
                let j0 = if j > n {
                    j - 1
                } else {
                    j
                };
                if i != n {
                    assert(accounted(q)[i] == before[i0]);
                }
                if j != n {
                    assert(accounted(q)[j] == before[j0]);
                }
            }
        },
    }
}

/// A started upload keeps the pipeline's books.
pub proof fn lemma_start_keeps_books(p: PipelineModel)
    requires
        pipeline_inv(p),
        pipeline_step(p) is StartUpload,
    ensures
        pipeline_inv(after_start(p)),
{
    let q = after_start(p);
    assert(accounted(q) =~= accounted(p));
    assert forall|i: int| 0 <= i < q.in_flight.len() implies record_fits(
        q,
        #[trigger] q.in_flight[i],
    ) by {
        if i < p.in_flight.len() {
            assert(record_fits(p, p.in_flight[i]));
        }
    }
    assert forall|i: int| 0 <= i < q.records.len() implies record_fits(
        q,
        #[trigger] q.records[i],
    ) by {
        assert(record_fits(p, p.records[i]));
    }
}

/// An ended upload keeps the pipeline's books.
pub proof fn lemma_end_keeps_books(p: PipelineModel, i: int, outcome: Option<UploadOutcome>)
    requires
        pipeline_inv(p),
        0 <= i < p.in_flight.len(),
    ensures
        pipeline_inv(after_end(p, i, outcome)),
{
    let q = after_end(p, i, outcome);
    let n = p.records.len() as int;
    assert(record_fits(p, p.in_flight[i]));
    assert forall|k: int| 0 <= k < q.in_flight.len() implies record_fits(
        q,
        #[trigger] q.in_flight[k],
    ) by {
        if k < i {
            assert(record_fits(p, p.in_flight[k]));
        } else {
            assert(record_fits(p, p.in_flight[k + 1]));
        }
    }
    assert forall|k: int| 0 <= k < q.records.len() implies record_fits(
        q,
        #[trigger] q.records[k],
    ) by {
        if k < n {
            assert(record_fits(p, p.records[k]));
        }
    }
    let a = accounted(p);
    let b = accounted(q);
    assert(b.len() == a.len());
    assert(a[n + i] == p.in_flight[i].at);
    // Where each place of `b` stood in `a`.
    let from = |k: int|
        if k < n {
            k
        } else if k == n {
            n + i
        } else if k <= n + i {
            k - 1
        } else {
            k
        };
    assert forall|k: int| 0 <= k < b.len() implies #[trigger] b[k] == a[from(k)] by {
        if k < n {
            assert(q.records[k] == p.records[k]);
        } else if k > n && k <= n + p.in_flight.len() - 1 {
            assert(b[k] == q.in_flight[k - n - 1].at);
        }
    }
    assert forall|k: int, l: int| 0 <= k < b.len() && 0 <= l < b.len() && k != l implies b[k]
        != b[l] by {
        assert(from(k) != from(l));
        assert(b[k] == a[from(k)] && b[l] == a[from(l)]);
    }
}

/// When a pipeline is done, each of its segments has one record, and no record
/// is of anything else.
pub proof fn lemma_done_has_all_records(p: PipelineModel)
    requires
        pipeline_inv(p),
        pipeline_step(p) is Done,
    ensures
        p.records.len() == p.segments.len(),
        places(p.records).no_duplicates(),
        forall|i: int|
            0 <= i < p.records.len() ==> (#[trigger] p.records[i]).at < p.segments.len()
                && p.records[i].metrics.segment_index == p.segments[p.records[i].at as int].index,
{
    assert(accounted(p) =~= places(p.records));
    assert forall|i: int| 0 <= i < p.records.len() implies (#[trigger] p.records[i]).at
        < p.segments.len() && p.records[i].metrics.segment_index
        == p.segments[p.records[i].at as int].index by {
        assert(record_fits(p, p.records[i]));
    }
}

/// A success is recorded for real uploads only: at every point of every run the
/// books are kept, and as many records say success as uploads stored their
/// segment. Segments that were skipped, held back, gone or failed are recorded
/// as failures.
pub proof fn lemma_successes_are_uploads(segments: Seq<SegmentModel>, events: Seq<PipelineEvent>)
    requires
        segments.len() <= usize::MAX,
        is_run(not_begun(segments), events),
    ensures
        pipeline_inv(after_events(not_begun(segments), events)),
        successes(after_events(not_begun(segments), events).records) == uploads(events),
    decreases events.len(),
{
    let start = not_begun(segments);
    if events.len() == 0 {
        assert(accounted(start) =~= Seq::empty());
    } else {
        lemma_successes_are_uploads(segments, events.drop_last());
        let p = after_events(start, events.drop_last());
        let q = after_events(start, events);
        match events.last() {
            PipelineEvent::Compressed { size, result } => {
                lemma_compression_keeps_books(p, size, result);
                if result is None {
                    assert(q.records.drop_last() =~= p.records);
                }
            },
            PipelineEvent::Started => {
                lemma_start_keeps_books(p);
            },
            PipelineEvent::Ended { i, outcome } => {
                lemma_end_keeps_books(p, i, outcome);
                assert(q.records.drop_last() =~= p.records);
            },
        }
    }
}

/// How far a pipeline is from its end: each segment is compressed, its upload
/// started and ended.
pub open spec fn steps_left(p: PipelineModel) -> int {
    3 * (p.segments.len() - p.next) + (if p.waiting is Some {
        2int
    } else {
        0
    }) + p.in_flight.len()
}

/// Every step brings a pipeline nearer to its end, so it comes to one.
pub proof fn lemma_steps_come_to_an_end(
    p: PipelineModel,
    size: u64,
    result: Option<CompressedModel>,
    i: int,
    outcome: Option<UploadOutcome>,
)
    requires
        pipeline_inv(p),
    ensures
        pipeline_step(p) is Done <==> steps_left(p) == 0,
        steps_left(p) >= 0,
        pipeline_step(p) is Compress ==> steps_left(after_compression(p, size, result))
            < steps_left(p),
        pipeline_step(p) is StartUpload ==> steps_left(after_start(p)) < steps_left(p),
        pipeline_step(p) is AwaitUpload ==> p.in_flight.len() > 0,
        0 <= i < p.in_flight.len() ==> steps_left(after_end(p, i, outcome)) < steps_left(p),
{
}

impl Pipeline {
    /// What every step keeps.
    pub open spec fn wf(self) -> bool {
        pipeline_inv(self@)
    }

    /// A pipeline over `segments`. Without an uploader there is nothing to do.
    pub fn new(segments: Vec<SealedSegment>, has_uploader: bool) -> (p: Pipeline)
        ensures
            p.wf(),
            p@ == (PipelineModel {
                segments: if has_uploader {
                    segment_models(segments@)
                } else {
                    Seq::empty()
                },
                next: 0,
                waiting: None,
                in_flight: Seq::empty(),
                records: Seq::empty(),
            }),
    {
        let segments = if has_uploader {
            segments
        } else {
            Vec::new()
        };
        let p = Pipeline {
            segments,
            next: 0,
            waiting: None,
            in_flight: Vec::new(),
            records: Vec::new(),
        };
        assert(accounted(p@) =~= Seq::empty());
        assert(p.segments.len() <= usize::MAX);
        p
    }

    /// What is to be done next.
    pub fn step(&self) -> (s: PipelineStep)
        requires
            self.wf(),
        ensures
            s == pipeline_step(self@),
    {
        match &self.waiting {
            Some(_) => if self.in_flight.len() < UPLOAD_PERMITS {
                PipelineStep::StartUpload
            } else {
                PipelineStep::AwaitUpload
            },
            None => if self.next < self.segments.len() {
                PipelineStep::Compress(self.next)
            } else if self.in_flight.len() > 0 {
                PipelineStep::AwaitUpload
            } else {
                PipelineStep::Done
            },
        }
    }

    /// The segment at a place of the list.
    pub fn segment(&self, at: usize) -> (s: Option<&SealedSegment>)
        ensures
            match s {
                Some(s) => at < self@.segments.len() && s@ == self@.segments[at as int],
                None => at >= self@.segments.len(),
            },
    {
        if at < self.segments.len() {
            Some(&self.segments[at])
        } else {
            None
        }
    }

    /// The records of the segments that are through.
    pub fn records(&self) -> (r: &Vec<SegmentRecord>)
        ensures
            r@ == self@.records,
    {
        &self.records
    }

    /// The next segment, with a file of `size` bytes, was compressed, or is to
    /// be skipped.
    pub fn compressed(&mut self, size: u64, result: Option<CompressedSegment>)
        requires
            old(self).wf(),
            pipeline_step(old(self)@) is Compress,
        ensures
            final(self).wf(),
            final(self)@ == after_compression(old(self)@, size, compressed_model(result)),
    {
        let ghost before = self@;
        let ghost model = compressed_model(result);
        let at: usize = self.next;
        let mut record = SegmentRecord {
            at,
            metrics: SegmentUploadMetrics {
                success: 0,
                segment_index: self.segments[at].index,
                uncompressed_size: size,
                compressed_size: 0,
            },
        };
        proof {
            lemma_compression_keeps_books(before, size, model);
        }
        self.next = at + 1;
        match result {
            Some(compressed) => {
                record.metrics.compressed_size = compressed.data.len() as u64;
                self.waiting = Some(Waiting { record, compressed });
            },
            None => {
                self.records.push(record);
            },
        }
        assert(self@ =~= after_compression(before, size, model));
    }

    /// The upload of the waiting segment starts: its segment and its data, and
    /// the place by which [`Pipeline::upload_ended`] knows it.
    pub fn start_upload(&mut self) -> (u: (usize, SealedSegment, CompressedSegment))
        requires
            old(self).wf(),
            pipeline_step(old(self)@) is StartUpload,
        ensures
            final(self).wf(),
            final(self)@ == after_start(old(self)@),
            old(self)@.waiting matches Some(waiting) && u.0 == waiting.0.at && u.1@ == old(
                self,
            )@.segments[u.0 as int] && u.2@ == waiting.1,
    {
        let ghost before = self@;
        proof {
            lemma_start_keeps_books(before);
        }
        let mut waiting: Option<Waiting> = None;
        std::mem::swap(&mut waiting, &mut self.waiting);
        let waiting = waiting.unwrap();
        let at: usize = waiting.record.at;
        assert(record_fits(before, waiting.record));
        let segment = SealedSegment {
            path: self.segments[at].path.clone(),
            index: self.segments[at].index,
        };
        self.in_flight.push(waiting.record);
        assert(self@ =~= after_start(before));
        (at, segment, waiting.compressed)
    }

    /// The upload of the segment at `at` has ended with `outcome`; it has none
    /// if it was held back or broken off. Nothing happens if no such upload
    /// runs.
    pub fn upload_ended(&mut self, at: usize, outcome: Option<UploadOutcome>)
        requires
            old(self).wf(),
        ensures
            final(self).wf(),
            match running_at(old(self)@.in_flight, at) {
                Some(i) => final(self)@ == after_end(old(self)@, i, outcome),
                None => final(self)@ == old(self)@,
            },
    {
        let ghost before = self@;
        let mut i: usize = 0;
        while i < self.in_flight.len()
            invariant
                i <= self.in_flight@.len(),
                self@ == before,
                *self == *old(self),
                self.wf(),
                running_at(before.in_flight, at) == running_from(
                    before.in_flight,
                    at,
                    i as int,
                ),
            decreases self.in_flight@.len() - i,
        {
            if self.in_flight[i].at == at {
                proof {
                    lemma_end_keeps_books(before, i as int, outcome);
                }
                let mut record = self.in_flight.remove(i);
                record.metrics.success = match outcome {
                    Some(UploadOutcome::Uploaded) => 1,
                    _ => 0,
                };
                self.records.push(record);
                assert(self@ =~= after_end(before, i as int, outcome));
                return;
            }
            i = i + 1;
        }
    }
}

/// Where the upload of the segment at `at` is among those that run, looked for
/// from `i` on.
pub open spec fn running_from(in_flight: Seq<SegmentRecord>, at: usize, i: int) -> Option<int>
    decreases in_flight.len() - i,
{
    if i < 0 || i >= in_flight.len() {
        None
    } else if in_flight[i].at == at {
        Some(i)
    } else {
        running_from(in_flight, at, i + 1)
    }
}

/// Where the upload of the segment at `at` is among those that run.
pub open spec fn running_at(in_flight: Seq<SegmentRecord>, at: usize) -> Option<int> {
    running_from(in_flight, at, 0)
}

/// A segment that was compressed waits for its upload with what was compressed
/// of it; one that was skipped has its record at once, as a failure. The record
/// is of the segment that was next: its place and its index, the size of its
/// file, and the size that it was compressed to.
pub proof fn lemma_compression_takes_the_next_segment(
    p: PipelineModel,
    size: u64,
    result: Option<CompressedModel>,
)
    requires
        p.next < p.segments.len() <= usize::MAX,
    ensures
        ({
            let n = after_compression(p, size, result);
            &&& n.segments == p.segments
            &&& n.next == p.next + 1
            &&& n.in_flight == p.in_flight
            &&& match result {
                Some(c) => n.records == p.records && (n.waiting matches Some(waiting) && waiting.1
                    == c && waiting.0.at == p.next && waiting.0.metrics.success == 0
                    && waiting.0.metrics.segment_index == p.segments[p.next as int].index
                    && waiting.0.metrics.uncompressed_size == size && (c.data.len() <= u64::MAX
                    ==> waiting.0.metrics.compressed_size == c.data.len())),
                None => n.waiting == p.waiting && n.records.drop_last() == p.records
                    && n.records.last().at == p.next && n.records.last().metrics.success == 0
                    && n.records.last().metrics.segment_index == p.segments[p.next as int].index
                    && n.records.last().metrics.uncompressed_size == size
                    && n.records.last().metrics.compressed_size == 0,
            }
        }),
{
    assert(after_compression(p, size, None).records.drop_last() =~= p.records);
}

/// An upload that starts is one more that runs, and its segment waits no longer.
/// An upload that ends runs no longer and has its record, which says success
/// exactly if the segment was stored; the record and the other uploads are
/// unchanged otherwise.
pub proof fn lemma_uploads_start_and_end(
    p: PipelineModel,
    waiting: (SegmentRecord, CompressedModel),
    i: int,
    outcome: Option<UploadOutcome>,
)
    ensures
        p.waiting == Some(waiting) ==> {
            let n = after_start(p);
            &&& n.waiting is None
            &&& n.in_flight == p.in_flight.push(waiting.0)
            &&& n.records == p.records
            &&& n.next == p.next
            &&& n.segments == p.segments
        },
        0 <= i < p.in_flight.len() ==> {
            let n = after_end(p, i, outcome);
            let ran = p.in_flight[i];
            let record = n.records.last();
            &&& n.in_flight == p.in_flight.remove(i)
            &&& n.records.drop_last() == p.records
            &&& n.waiting == p.waiting
            &&& n.next == p.next
            &&& n.segments == p.segments
            &&& record.at == ran.at
            &&& record.metrics.segment_index == ran.metrics.segment_index
            &&& record.metrics.uncompressed_size == ran.metrics.uncompressed_size
            &&& record.metrics.compressed_size == ran.metrics.compressed_size
            &&& record.metrics.success == (if outcome matches Some(o) && o
                == UploadOutcome::Uploaded {
                1int
            } else {
                0
            })
        },
{
    assert(after_end(p, i, outcome).records.drop_last() =~= p.records);
}

/// Two uploads run at most. A segment that waits is uploaded as soon as one may
/// start; while none waits the next segment is compressed, in the order of the
/// list; the pipeline is done once nothing is left to compress, waits or runs.
pub proof fn lemma_next_step_of_the_pipeline(p: PipelineModel)
    requires
        p.next <= p.segments.len() <= usize::MAX,
    ensures
        UPLOAD_PERMITS == 2,
        pipeline_step(p) is StartUpload <==> p.waiting is Some && p.in_flight.len() < 2,
        pipeline_step(p) is Compress <==> p.waiting is None && p.next < p.segments.len(),
        pipeline_step(p) matches PipelineStep::Compress(at) ==> at == p.next,
        pipeline_step(p) is Done <==> p.waiting is None && p.next == p.segments.len()
            && p.in_flight.len() == 0,
        pipeline_step(p) is AwaitUpload <==> p.in_flight.len() > 0 && (p.waiting is Some
            && p.in_flight.len() >= 2 || p.waiting is None && p.next == p.segments.len()),
{
}

/// The upload of a segment is found by the place of the segment, where it runs.
pub proof fn lemma_running_upload_is_found_by_place(
    in_flight: Seq<SegmentRecord>,
    at: usize,
    from: int,
)
    requires
        0 <= from <= in_flight.len(),
    ensures
        match running_from(in_flight, at, from) {
            Some(i) => from <= i < in_flight.len() && in_flight[i].at == at && forall|j: int|
                from <= j < i ==> (#[trigger] in_flight[j]).at != at,
            None => forall|j: int|
                from <= j < in_flight.len() ==> (#[trigger] in_flight[j]).at != at,
        },
        from == 0 ==> running_at(in_flight, at) == running_from(in_flight, at, from),
    decreases in_flight.len() - from,
{
    if from < in_flight.len() && in_flight[from].at != at {
        lemma_running_upload_is_found_by_place(in_flight, at, from + 1);
    }
}

/// The value of a compressed segment is its bytes and its time; a segment that
/// was skipped has none.
pub proof fn lemma_value_of_a_compressed_segment(c: CompressedSegment)
    ensures
        c@.data == c.data@,
        c@.epoch_secs == c.epoch_secs,
        compressed_model(Some(c)) == Some(c@),
        compressed_model(None) is None,
{
}

} // verus!
