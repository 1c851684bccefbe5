//! S3 uploads of sealed trace segments.
//!
//! Gzip-compresses sealed segments and says what to send to S3. Local files
//! are deleted only after a confirmed upload.

use crate::text::{decimal, padded_decimal, push_decimal, push_padded, IntoText};
use crate::worker::calendar::{
    civil_from_days, date_on, lemma_date_on, lemma_year_not_below_day,
};
use crate::worker::sealed::SealedSegment;
use flate2::write::GzEncoder;
use flate2::Compression;
use std::io::Write;
use vstd::prelude::*;

verus! {

/// Configuration for S3 uploads.
#[derive(Debug, Clone)]
pub struct S3Config {
    bucket: String,
    service_name: String,
    instance_path: String,
    boot_id: String,
    prefix: String,
    region: Option<String>,
}

/// The value of an [`S3Config`].
#[verifier::ext_equal]
pub struct S3ConfigModel {
    pub bucket: Seq<char>,
    pub service_name: Seq<char>,
    pub instance_path: Seq<char>,
    pub boot_id: Seq<char>,
    pub prefix: Seq<char>,
    pub region: Option<Seq<char>>,
}

impl View for S3Config {
    type V = S3ConfigModel;

    closed spec fn view(&self) -> S3ConfigModel {
        S3ConfigModel {
            bucket: self.bucket@,
            service_name: self.service_name@,
            instance_path: self.instance_path@,
            boot_id: self.boot_id@,
            prefix: self.prefix@,
            region: text_of(self.region),
        }
    }
}

/// The characters of a text that may be missing.
pub open spec fn text_of(s: Option<String>) -> Option<Seq<char>> {
    match s {
        Some(s) => Some(s@),
        None => None,
    }
}

/// Collects the fields of an [`S3Config`].
pub struct S3ConfigBuilder {
    bucket: Option<String>,
    service_name: Option<String>,
    instance_path: Option<String>,
    boot_id: Option<String>,
    prefix: Option<String>,
    region: Option<String>,
}

/// The value of an [`S3ConfigBuilder`].
#[verifier::ext_equal]
pub struct S3ConfigBuilderModel {
    pub bucket: Option<Seq<char>>,
    pub service_name: Option<Seq<char>>,
    pub instance_path: Option<Seq<char>>,
    pub boot_id: Option<Seq<char>>,
    pub prefix: Option<Seq<char>>,
    pub region: Option<Seq<char>>,
}

impl View for S3ConfigBuilder {
    type V = S3ConfigBuilderModel;

    closed spec fn view(&self) -> S3ConfigBuilderModel {
        S3ConfigBuilderModel {
            bucket: text_of(self.bucket),
            service_name: text_of(self.service_name),
            instance_path: text_of(self.instance_path),
            boot_id: text_of(self.boot_id),
            prefix: text_of(self.prefix),
            region: text_of(self.region),
        }
    }
}

impl S3ConfigBuilder {
    /// The bucket to upload to.
    pub fn bucket<T: IntoText>(self, bucket: T) -> (b: S3ConfigBuilder)
        ensures
            b@ == (S3ConfigBuilderModel { bucket: Some(bucket.text()), ..self@ }),
    {
        S3ConfigBuilder { bucket: Some(bucket.into_text()), ..self }
    }

    /// The name of the service that writes the traces.
    pub fn service_name<T: IntoText>(self, service_name: T) -> (b: S3ConfigBuilder)
        ensures
            b@ == (S3ConfigBuilderModel { service_name: Some(service_name.text()), ..self@ }),
    {
        S3ConfigBuilder { service_name: Some(service_name.into_text()), ..self }
    }

    /// Where the service runs.
    pub fn instance_path<T: IntoText>(self, instance_path: T) -> (b: S3ConfigBuilder)
        ensures
            b@ == (S3ConfigBuilderModel { instance_path: Some(instance_path.text()), ..self@ }),
    {
        S3ConfigBuilder { instance_path: Some(instance_path.into_text()), ..self }
    }

    /// Tells this run of the service from others.
    pub fn boot_id<T: IntoText>(self, boot_id: T) -> (b: S3ConfigBuilder)
        ensures
            b@ == (S3ConfigBuilderModel { boot_id: Some(boot_id.text()), ..self@ }),
    {
        S3ConfigBuilder { boot_id: Some(boot_id.into_text()), ..self }
    }

    /// Optional key prefix. Defaults to empty (no prefix).
    pub fn prefix<T: IntoText>(self, prefix: T) -> (b: S3ConfigBuilder)
        ensures
            b@ == (S3ConfigBuilderModel { prefix: Some(prefix.text()), ..self@ }),
    {
        S3ConfigBuilder { prefix: Some(prefix.into_text()), ..self }
    }

    /// The region of the bucket. Found out from the bucket if not set.
    pub fn region<T: IntoText>(self, region: T) -> (b: S3ConfigBuilder)
        ensures
            b@ == (S3ConfigBuilderModel { region: Some(region.text()), ..self@ }),
    {
        S3ConfigBuilder { region: Some(region.into_text()), ..self }
    }

    /// The configuration. Bucket, service name, instance path and boot id must
    /// have been given.
    pub fn build(self) -> (c: S3Config)
        requires
            self@.bucket is Some,
            self@.service_name is Some,
            self@.instance_path is Some,
            self@.boot_id is Some,
        ensures
            c@ == (S3ConfigModel {
                bucket: self@.bucket->Some_0,
                service_name: self@.service_name->Some_0,
                instance_path: self@.instance_path->Some_0,
                boot_id: self@.boot_id->Some_0,
                prefix: match self@.prefix {
                    Some(prefix) => prefix,
                    None => Seq::empty(),
                },
                region: self@.region,
            }),
    {
        S3Config {
            bucket: self.bucket.unwrap(),
            service_name: self.service_name.unwrap(),
            instance_path: self.instance_path.unwrap(),
            boot_id: self.boot_id.unwrap(),
            prefix: match self.prefix {
                Some(prefix) => prefix,
                None => String::new(),
            },
            region: self.region,
        }
    }
}

/// `YYYY-MM-DD/HH`.
pub open spec fn date_hour_text(date: (int, int, int), hour: nat) -> Seq<char> {
    padded_decimal(date.0 as nat, 4) + seq!['-'] + padded_decimal(date.1 as nat, 2) + seq!['-']
        + padded_decimal(date.2 as nat, 2) + seq!['/'] + padded_decimal(hour, 2)
}

/// The date and the hour of a time in seconds since 1970.
pub open spec fn date_hour(epoch_secs: u64) -> Seq<char> {
    date_hour_text(date_on(epoch_secs as int / 86400), (epoch_secs as nat % 86400) / 3600)
}

/// Convert epoch seconds to `YYYY-MM-DD/HH` string for S3 key bucketing.
pub fn date_hour_from_epoch(epoch_secs: u64) -> (s: String)
    ensures
        s@ == date_hour(epoch_secs),
{
    let days: i64 = (epoch_secs / 86400) as i64;
    let hour: u64 = (epoch_secs % 86400) / 3600;
    let date = civil_from_days(days);
    proof {
        lemma_date_on(date.year as int, date.month as int, date.day as int);
    }
    let mut s = String::new();
    assert(date.year >= 0) by {
        lemma_year_not_below_day(date.year as int, date.month as int, date.day as int);
    }
    push_padded(&mut s, date.year as u64, 4);
    s.push('-');
    push_padded(&mut s, date.month as u64, 2);
    s.push('-');
    push_padded(&mut s, date.day as u64, 2);
    s.push('/');
    push_padded(&mut s, hour, 2);
    assert(s@ =~= date_hour(epoch_secs));
    s
}

/// The key of a segment: `{prefix}/{date-hour}/{service}/{instance}/`
/// `{epoch_secs}-{index}.bin.gz`, without the first part if the prefix is empty.
pub open spec fn key_text(config: S3ConfigModel, index: u32, epoch_secs: u64) -> Seq<char> {
    let head = if config.prefix.len() == 0 {
        Seq::empty()
    } else {
        config.prefix + seq!['/']
    };
    head + date_hour(epoch_secs) + seq!['/'] + config.service_name + seq!['/']
        + config.instance_path + seq!['/'] + decimal(epoch_secs as nat) + seq!['-'] + decimal(
        index as nat,
    ) + ".bin.gz"@
}

impl S3Config {
    /// Start with nothing given.
    pub fn builder() -> (b: S3ConfigBuilder)
        ensures
            b@ == (S3ConfigBuilderModel {
                bucket: None,
                service_name: None,
                instance_path: None,
                boot_id: None,
                prefix: None,
                region: None,
            }),
    {
        S3ConfigBuilder {
            bucket: None,
            service_name: None,
            instance_path: None,
            boot_id: None,
            prefix: None,
            region: None,
        }
    }

    /// The bucket to upload to.
    pub fn bucket(&self) -> (s: &str)
        ensures
            s@ == self@.bucket,
    {
        self.bucket.as_str()
    }

    /// The region of the bucket, if it was given.
    pub fn region(&self) -> (r: Option<&str>)
        ensures
            match r {
                Some(s) => self@.region == Some(s@),
                None => self@.region is None,
            },
    {
        match &self.region {
            Some(s) => Some(s.as_str()),
            None => None,
        }
    }

    /// Build the S3 object key for a sealed segment.
    ///
    /// Format: `{prefix}/{date-hour}/{service}/{instance}/{epoch_secs}-{index}.bin.gz`
    /// Time-first layout enables incident correlation across all services with a
    /// single `ListObjectsV2` prefix query.
    pub fn object_key(&self, segment: &SealedSegment, epoch_secs: u64) -> (key: String)
        ensures
            key@ == key_text(self@, segment.index, epoch_secs),
    {
        let mut key = String::new();
        let prefix = crate::text::to_chars(self.prefix.as_str());
        if prefix.len() != 0 {
            key.append(self.prefix.as_str());
            key.push('/');
        }
        let ghost head = key@;
        assert(head =~= (if self.prefix@.len() == 0 {
            Seq::empty()
        } else {
            self.prefix@ + seq!['/']
        }));
        let date_hour = date_hour_from_epoch(epoch_secs);
        key.append(date_hour.as_str());
        key.push('/');
        key.append(self.service_name.as_str());
        key.push('/');
        key.append(self.instance_path.as_str());
        key.push('/');
        push_decimal(&mut key, epoch_secs);
        key.push('-');
        push_decimal(&mut key, segment.index as u64);
        key.append(".bin.gz");
        assert(key@ =~= key_text(self@, segment.index, epoch_secs));
        key
    }
}

/// The bytes that `flate2::read::GzDecoder` reads to the end from `bytes`;
/// `None` if it fails.
pub uninterp spec fn gunzipped(bytes: Seq<u8>) -> Option<Seq<u8>>;

/// Gzip-compress a byte slice.
///
/// `flate2::write::GzEncoder` writes what it is given, compressed, to the
/// vector that it holds, and `finish` hands the vector out. This does not fail:
/// a vector takes every write, and the compressor fails only on a stream that
/// is written to after its end. Of the bytes only this is claimed: reading them
/// with `flate2::read::GzDecoder` gives back what was compressed. Which bytes
/// they are is left to the encoder.
#[verifier::external_body]
pub fn gzip_compress(data: &[u8]) -> (r: std::io::Result<Vec<u8>>)
    ensures
        r is Ok,
        r matches Ok(bytes) ==> gunzipped(bytes@) == Some(data@),
{
    let mut encoder = GzEncoder::new(Vec::new(), Compression::fast());
    encoder.write_all(data)?;
    encoder.finish()
}

/// What is sent to S3.
#[derive(Debug)]
pub struct UploadRequest {
    pub bucket: String,
    pub key: String,
    pub content_encoding: String,
    pub content_type: String,
    pub metadata: Vec<(String, String)>,
    pub body: Vec<u8>,
}

/// The value of an [`UploadRequest`].
#[verifier::ext_equal]
pub struct RequestModel {
    pub bucket: Seq<char>,
    pub key: Seq<char>,
    pub content_encoding: Seq<char>,
    pub content_type: Seq<char>,
    pub metadata: Seq<(Seq<char>, Seq<char>)>,
    pub body: Seq<u8>,
}

impl View for UploadRequest {
    type V = RequestModel;

    open spec fn view(&self) -> RequestModel {
        RequestModel {
            bucket: self.bucket@,
            key: self.key@,
            content_encoding: self.content_encoding@,
            content_type: self.content_type@,
            metadata: self.metadata@.map_values(|e: (String, String)| (e.0@, e.1@)),
            body: self.body@,
        }
    }
}

/// The request that uploads the compressed bytes `body` of a segment.
pub open spec fn request_for(
    config: S3ConfigModel,
    index: u32,
    epoch_secs: u64,
    body: Seq<u8>,
) -> RequestModel {
    RequestModel {
        bucket: config.bucket,
        key: key_text(config, index, epoch_secs),
        content_encoding: "gzip"@,
        content_type: "application/octet-stream"@,
        metadata: seq![
            ("service"@, config.service_name),
            ("boot-id"@, config.boot_id),
            ("segment-index"@, decimal(index as nat)),
            ("start-time"@, decimal(epoch_secs as nat)),
            ("host"@, config.instance_path),
        ],
        body,
    }
}

/// How far the upload of a segment has come.
#[derive(Debug)]
pub enum UploadState {
    /// The segment's file is to be read.
    Reading,
    /// The request with this key is being sent.
    Sending(String),
    /// The object with this key is stored; the file is to be deleted.
    Deleting(String),
    /// The object with this key is stored and the file is gone.
    Done(String),
    /// The upload has come to an end without success.
    Failed,
}

/// What became of the last action.
#[derive(Debug)]
pub enum UploadEvent {
    /// The file was read.
    FileRead(Vec<u8>),
    /// S3 has confirmed the upload.
    Uploaded,
    /// The file was deleted.
    FileRemoved,
    /// The action failed.
    ActionFailed,
}

/// What is to be done next.
#[derive(Debug)]
pub enum UploadAction {
    /// Read the file at this path.
    Read(String),
    /// Send this request.
    Send(UploadRequest),
    /// Delete the file at this path.
    Delete(String),
    /// Nothing: the upload has succeeded, with this key.
    Finish(String),
    /// Nothing: the upload has failed.
    Abort,
}

/// The value of an [`UploadState`].
#[verifier::ext_equal]
pub enum UploadStateModel {
    Reading,
    Sending(Seq<char>),
    Deleting(Seq<char>),
    Done(Seq<char>),
    Failed,
}

impl View for UploadState {
    type V = UploadStateModel;

    open spec fn view(&self) -> UploadStateModel {
        match *self {
            UploadState::Reading => UploadStateModel::Reading,
            UploadState::Sending(key) => UploadStateModel::Sending(key@),
            UploadState::Deleting(key) => UploadStateModel::Deleting(key@),
            UploadState::Done(key) => UploadStateModel::Done(key@),
            UploadState::Failed => UploadStateModel::Failed,
        }
    }
}

/// The value of an [`UploadEvent`].
#[verifier::ext_equal]
pub enum UploadEventModel {
    FileRead(Seq<u8>),
    Uploaded,
    FileRemoved,
    ActionFailed,
}

impl View for UploadEvent {
    type V = UploadEventModel;

    open spec fn view(&self) -> UploadEventModel {
        match *self {
            UploadEvent::FileRead(data) => UploadEventModel::FileRead(data@),
            UploadEvent::Uploaded => UploadEventModel::Uploaded,
            UploadEvent::FileRemoved => UploadEventModel::FileRemoved,
            UploadEvent::ActionFailed => UploadEventModel::ActionFailed,
        }
    }
}

/// The value of an [`UploadAction`].
#[verifier::ext_equal]
pub enum UploadActionModel {
    Read(Seq<char>),
    Send(RequestModel),
    Delete(Seq<char>),
    Finish(Seq<char>),
    Abort,
}

impl View for UploadAction {
    type V = UploadActionModel;

    open spec fn view(&self) -> UploadActionModel {
        match *self {
            UploadAction::Read(path) => UploadActionModel::Read(path@),
            UploadAction::Send(request) => UploadActionModel::Send(request@),
            UploadAction::Delete(path) => UploadActionModel::Delete(path@),
            UploadAction::Finish(key) => UploadActionModel::Finish(key@),
            UploadAction::Abort => UploadActionModel::Abort,
        }
    }
}

/// The steps of an upload but the first: the file is deleted once the upload is
/// confirmed, and the upload has succeeded once the file is gone. Anything else
/// ends it.
pub open spec fn later_step(
    path: Seq<char>,
    state: UploadStateModel,
    event: UploadEventModel,
) -> (UploadStateModel, UploadActionModel) {
    match (state, event) {
        (UploadStateModel::Sending(key), UploadEventModel::Uploaded) => (
            UploadStateModel::Deleting(key),
            UploadActionModel::Delete(path),
        ),
        (UploadStateModel::Deleting(key), UploadEventModel::FileRemoved) => (
            UploadStateModel::Done(key),
            UploadActionModel::Finish(key),
        ),
        _ => (UploadStateModel::Failed, UploadActionModel::Abort),
    }
}

/// The step from compressed bytes to the request.
pub open spec fn send_step(
    config: S3ConfigModel,
    index: u32,
    epoch_secs: u64,
    body: Seq<u8>,
) -> (UploadStateModel, UploadActionModel) {
    let request = request_for(config, index, epoch_secs, body);
    (UploadStateModel::Sending(request.key), UploadActionModel::Send(request))
}

/// Whether `next` is a step from `state` on `event`: a file that was read is
/// compressed and sent.
pub open spec fn steps_to(
    config: S3ConfigModel,
    segment: crate::worker::sealed::SegmentModel,
    epoch_secs: u64,
    state: UploadStateModel,
    event: UploadEventModel,
    next: (UploadStateModel, UploadActionModel),
) -> bool {
    if state is Reading && event is FileRead {
        next.1 matches UploadActionModel::Send(request) && gunzipped(request.body) == Some(
            event->FileRead_0,
        ) && next == send_step(config, segment.index, epoch_secs, request.body)
    } else {
        next == later_step(segment.path, state, event)
    }
}

/// Uploads sealed trace segments to S3.
#[derive(Debug)]
pub struct S3Uploader {
    config: S3Config,
}

impl S3Uploader {
    /// The configuration.
    pub closed spec fn config(self) -> S3ConfigModel {
        self.config@
    }

    pub fn new(config: S3Config) -> (u: S3Uploader)
        ensures
            u.config() == config@,
    {
        S3Uploader { config }
    }

    /// The request that uploads the compressed bytes of a segment.
    pub fn request(&self, segment: &SealedSegment, epoch_secs: u64, body: Vec<u8>) -> (r:
        UploadRequest)
        ensures
            r@ == request_for(self.config(), segment.index, epoch_secs, body@),
    {
        let mut index = String::new();
        push_decimal(&mut index, segment.index as u64);
        let mut start = String::new();
        push_decimal(&mut start, epoch_secs);
        assert(index@ =~= decimal(segment.index as nat));
        assert(start@ =~= decimal(epoch_secs as nat));
        let mut metadata: Vec<(String, String)> = Vec::new();
        metadata.push(("service".to_string(), self.config.service_name.clone()));
        metadata.push(("boot-id".to_string(), self.config.boot_id.clone()));
        metadata.push(("segment-index".to_string(), index));
        metadata.push(("start-time".to_string(), start));
        metadata.push(("host".to_string(), self.config.instance_path.clone()));
        let r = UploadRequest {
            bucket: self.config.bucket.clone(),
            key: self.config.object_key(segment, epoch_secs),
            content_encoding: "gzip".to_string(),
            content_type: "application/octet-stream".to_string(),
            metadata,
            body,
        };
        assert(r@.metadata =~= request_for(
            self.config(),
            segment.index,
            epoch_secs,
            body@,
        ).metadata);
        r
    }

    /// Begin the upload of a segment: its file is read first.
    pub fn begin(&self, segment: &SealedSegment) -> (s: (UploadState, UploadAction))
        ensures
            s.0@ == UploadStateModel::Reading,
            s.1@ == UploadActionModel::Read(segment@.path),
    {
        (UploadState::Reading, UploadAction::Read(segment.path.clone()))
    }

    /// Go on with what the encoder made of the file.
    pub fn compressed(
        &self,
        segment: &SealedSegment,
        epoch_secs: u64,
        compressed: std::io::Result<Vec<u8>>,
    ) -> (s: (UploadState, UploadAction))
        ensures
            match compressed {
                Ok(body) => (s.0@, s.1@) == send_step(
                    self.config(),
                    segment.index,
                    epoch_secs,
                    body@,
                ),
                Err(_) => s.0@ is Failed && s.1@ is Abort,
            },
    {
        match compressed {
            Ok(body) => {
                let request = self.request(segment, epoch_secs, body);
                (UploadState::Sending(request.key.clone()), UploadAction::Send(request))
            },
            Err(_) => (UploadState::Failed, UploadAction::Abort),
        }
    }

    /// Upload a sealed segment to S3, then delete the local file on success:
    /// the step from `state` when the last action has led to `event`.
    ///
    /// Ends with the S3 key of the uploaded object.
    pub fn upload_and_delete(
        &self,
        segment: &SealedSegment,
        epoch_secs: u64,
        state: UploadState,
        event: UploadEvent,
    ) -> (s: (UploadState, UploadAction))
        ensures
            steps_to(self.config(), segment@, epoch_secs, state@, event@, (s.0@, s.1@)),
    {
        match (state, event) {
            (UploadState::Reading, UploadEvent::FileRead(data)) => {
                let compressed = gzip_compress(data.as_slice());
                self.compressed(segment, epoch_secs, compressed)
            },
            (UploadState::Sending(key), UploadEvent::Uploaded) => (
                UploadState::Deleting(key),
                UploadAction::Delete(segment.path.clone()),
            ),
            (UploadState::Deleting(key), UploadEvent::FileRemoved) => {
                let finished = key.clone();
                (UploadState::Done(key), UploadAction::Finish(finished))
            },
            _ => (UploadState::Failed, UploadAction::Abort),
        }
    }
}

/// The local file is deleted only after a confirmed upload: the step that says
/// to delete comes right after the confirmation of a request that was sent,
/// and it deletes the segment's own file.
pub proof fn lemma_delete_needs_confirmation(
    config: S3ConfigModel,
    segment: crate::worker::sealed::SegmentModel,
    epoch_secs: u64,
    state: UploadStateModel,
    event: UploadEventModel,
    next: (UploadStateModel, UploadActionModel),
)
    requires
        steps_to(config, segment, epoch_secs, state, event, next),
        next.1 is Delete,
    ensures
        state is Sending,
        event is Uploaded,
        next.1 == UploadActionModel::Delete(segment.path),
{
}

/// What is stored is the segment: an upload that succeeds has sent, under the
/// key that it ends with, bytes that decompress to what the file held.
pub proof fn lemma_finished_upload_stored_segment(
    config: S3ConfigModel,
    segment: crate::worker::sealed::SegmentModel,
    epoch_secs: u64,
    data: Seq<u8>,
    read: (UploadStateModel, UploadActionModel),
    sent: (UploadStateModel, UploadActionModel),
    removed: (UploadStateModel, UploadActionModel),
)
    requires
        steps_to(
            config,
            segment,
            epoch_secs,
            UploadStateModel::Reading,
            UploadEventModel::FileRead(data),
            read,
        ),
        steps_to(config, segment, epoch_secs, read.0, UploadEventModel::Uploaded, sent),
        steps_to(config, segment, epoch_secs, sent.0, UploadEventModel::FileRemoved, removed),
        removed.0 is Done,
    ensures
        read.1 matches UploadActionModel::Send(request) && request == request_for(
            config,
            segment.index,
            epoch_secs,
            request.body,
        ) && gunzipped(request.body) == Some(data) && removed.1 == UploadActionModel::Finish(
            request.key,
        ),
{
}

/// The parts of a key stand in this order: date and hour, the service, where it
/// runs, and then the time in seconds and the number of the segment. A prefix
/// stands in front of all that, with a slash behind it, and changes nothing else.
pub proof fn lemma_key_is_laid_out_by_time(
    config: S3ConfigModel,
    prefix: Seq<char>,
    index: u32,
    epoch_secs: u64,
)
    ensures
        config.prefix.len() == 0 ==> {
            let key = key_text(config, index, epoch_secs);
            &&& key == date_hour(epoch_secs) + seq!['/'] + config.service_name + seq!['/']
                + config.instance_path + seq!['/'] + (decimal(epoch_secs as nat) + seq!['-']
                + decimal(index as nat) + seq!['.', 'b', 'i', 'n', '.', 'g', 'z'])
            &&& prefix.len() > 0 ==> key_text(
                S3ConfigModel { prefix, ..config },
                index,
                epoch_secs,
            ) == prefix + seq!['/'] + key
        },
{
    reveal_strlit(".bin.gz");
    assert(".bin.gz"@ =~= seq!['.', 'b', 'i', 'n', '.', 'g', 'z']);
    if config.prefix.len() == 0 {
        let key = key_text(config, index, epoch_secs);
        assert(key =~= date_hour(epoch_secs) + seq!['/'] + config.service_name + seq!['/']
            + config.instance_path + seq!['/'] + (decimal(epoch_secs as nat) + seq!['-'] + decimal(
            index as nat,
        ) + seq!['.', 'b', 'i', 'n', '.', 'g', 'z']));
        if prefix.len() > 0 {
            assert(key_text(S3ConfigModel { prefix, ..config }, index, epoch_secs) =~= prefix + seq![
                '/',
            ] + key);
        }
    }
}

/// Date and hour of a time: year, month and day of the day that it falls on,
/// then how many full hours of that day have passed. All times of one hour have
/// the same text.
pub proof fn lemma_date_and_hour_of_a_time(day: nat, hour: nat, second: nat, epoch_secs: u64)
    requires
        hour < 24,
        second < 3600,
        epoch_secs == day * 86400 + hour * 3600 + second,
    ensures
        date_hour(epoch_secs) == padded_decimal(date_on(day as int).0 as nat, 4) + seq!['-']
            + padded_decimal(date_on(day as int).1 as nat, 2) + seq!['-'] + padded_decimal(
            date_on(day as int).2 as nat,
            2,
        ) + seq!['/'] + padded_decimal(hour, 2),
{
    assert(epoch_secs as int / 86400 == day);
    assert((epoch_secs as nat % 86400) / 3600 == hour);
}

/// A request carries the configuration and the segment: the bucket, the key of
/// the segment, the compressed bytes, that they are compressed, and as metadata
/// the service, the run of the service, the number of the segment, its time, and
/// where the service runs, each under its own name.
pub proof fn lemma_request_describes_the_segment(
    config: S3ConfigModel,
    index: u32,
    epoch_secs: u64,
    body: Seq<u8>,
)
    ensures
        ({
            let r = request_for(config, index, epoch_secs, body);
            &&& r.bucket == config.bucket
            &&& r.key == key_text(config, index, epoch_secs)
            &&& r.content_encoding == "gzip"@
            &&& r.content_type == "application/octet-stream"@
            &&& r.body == body
            &&& r.metadata.len() == 5
            &&& r.metadata[0] == ("service"@, config.service_name)
            &&& r.metadata[1] == ("boot-id"@, config.boot_id)
            &&& r.metadata[2] == ("segment-index"@, decimal(index as nat))
            &&& r.metadata[3] == ("start-time"@, decimal(epoch_secs as nat))
            &&& r.metadata[4] == ("host"@, config.instance_path)
        }),
{
}

/// The value of a request has each of its fields under the same name.
pub proof fn lemma_value_of_a_request(r: UploadRequest)
    ensures
        r@.bucket == r.bucket@,
        r@.key == r.key@,
        r@.content_encoding == r.content_encoding@,
        r@.content_type == r.content_type@,
        r@.body == r.body@,
        r@.metadata.len() == r.metadata@.len(),
        forall|i: int|
            0 <= i < r.metadata@.len() ==> (#[trigger] r@.metadata[i]).0 == r.metadata@[i].0@
                && r@.metadata[i].1 == r.metadata@[i].1@,
{
}

/// The value of a state, an event or an action is of the same kind and has what
/// it has.
pub proof fn lemma_values_of_an_upload(s: UploadState, e: UploadEvent, a: UploadAction)
    ensures
        match s {
            UploadState::Reading => s@ is Reading,
            UploadState::Sending(key) => s@ matches UploadStateModel::Sending(k) && k == key@,
            UploadState::Deleting(key) => s@ matches UploadStateModel::Deleting(k) && k == key@,
            UploadState::Done(key) => s@ matches UploadStateModel::Done(k) && k == key@,
            UploadState::Failed => s@ is Failed,
        },
        match e {
            UploadEvent::FileRead(data) => e@ matches UploadEventModel::FileRead(d) && d == data@,
            UploadEvent::Uploaded => e@ is Uploaded,
            UploadEvent::FileRemoved => e@ is FileRemoved,
            UploadEvent::ActionFailed => e@ is ActionFailed,
        },
        match a {
            UploadAction::Read(path) => a@ matches UploadActionModel::Read(p) && p == path@,
            UploadAction::Send(request) => a@ matches UploadActionModel::Send(r) && r == request@,
            UploadAction::Delete(path) => a@ matches UploadActionModel::Delete(p) && p == path@,
            UploadAction::Finish(key) => a@ matches UploadActionModel::Finish(k) && k == key@,
            UploadAction::Abort => a@ is Abort,
        },
{
}

/// An upload goes step by step: what was read is sent, under the segment's key
/// and compressed; what was confirmed is deleted, and it is the segment's own
/// file; what was deleted is done, under the key that it was sent under. Every
/// other turn ends the upload without success.
pub proof fn lemma_upload_goes_step_by_step(
    config: S3ConfigModel,
    segment: crate::worker::sealed::SegmentModel,
    epoch_secs: u64,
    state: UploadStateModel,
    event: UploadEventModel,
    next: (UploadStateModel, UploadActionModel),
)
    requires
        steps_to(config, segment, epoch_secs, state, event, next),
    ensures
        match (state, event) {
            (UploadStateModel::Reading, UploadEventModel::FileRead(data)) => next.1 matches
                UploadActionModel::Send(request) && {
                &&& gunzipped(request.body) == Some(data)
                &&& request.key == key_text(config, segment.index, epoch_secs)
                &&& request.bucket == config.bucket
                &&& next.0 == UploadStateModel::Sending(request.key)
            },
            (UploadStateModel::Sending(key), UploadEventModel::Uploaded) => next.0
                == UploadStateModel::Deleting(key) && next.1 == UploadActionModel::Delete(
                segment.path,
            ),
            (UploadStateModel::Deleting(key), UploadEventModel::FileRemoved) => next.0
                == UploadStateModel::Done(key) && next.1 == UploadActionModel::Finish(key),
            _ => next.0 is Failed && next.1 is Abort,
        },
{
}

/// What was compressed is sent as it is, under the segment's key.
pub proof fn lemma_compressed_bytes_are_sent(
    config: S3ConfigModel,
    index: u32,
    epoch_secs: u64,
    body: Seq<u8>,
)
    ensures
        send_step(config, index, epoch_secs, body).1 matches UploadActionModel::Send(request)
            && request.body == body && request.key == key_text(config, index, epoch_secs)
            && request.bucket == config.bucket && send_step(config, index, epoch_secs, body).0
            == UploadStateModel::Sending(request.key),
{
}

} // verus!
