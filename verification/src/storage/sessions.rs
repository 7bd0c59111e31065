//! Uploads in several steps: how they are started, fed and completed.

use crate::decimal::{parse_usize, parsed_decimal};
use crate::fresh::{is_uuid, random_uuid};
use crate::percent::{percent_encode, percent_encoded};
use crate::storage::errors::{storage_outcome, StorageError};
use crate::storage::multipart::{content_type_or_default, either, first_of, UploadMetadata};
use crate::storage::objects::{
    generation_fits, infer_project_id, project_of_bucket, MetadataView, ObjectMetadata,
    ParsedUpload, UploadView,
};
use crate::storage::state::{
    upload_step, ResumableUploadSession, SessionView, StorageState, StorageView,
};
use crate::text::{list_contains, pieces, same_text, split, starts_with};
use crate::text_map::{clone_texts, TextMap};
use crate::trim::{trim, trimmed};
use vstd::prelude::*;

verus! {

/// What starts an upload in several steps.
#[derive(Debug)]
pub struct StartUpload {
    /// The object's name in the query.
    pub query_name: Option<String>,
    /// The object's content type in the headers.
    pub content_type: Option<String>,
    /// The object's length in the headers.
    pub length: Option<String>,
    /// Whether there is a body, which is metadata.
    pub has_body: bool,
    /// The metadata in the body, where there is a body that can be read.
    pub metadata: Option<UploadMetadata>,
}

/// The name in the metadata of an upload.
pub open spec fn given_name(start: StartUpload) -> Option<Seq<char>> {
    if start.has_body && start.metadata is Some {
        start.metadata->0.name.deep_view()
    } else {
        None
    }
}

/// The content type in the metadata of an upload.
pub open spec fn given_type(start: StartUpload) -> Option<Seq<char>> {
    if start.has_body && start.metadata is Some {
        start.metadata->0.content_type.deep_view()
    } else {
        None
    }
}

/// What else the metadata of an upload holds.
pub open spec fn given_metadata(start: StartUpload) -> Map<Seq<char>, Seq<char>> {
    if start.has_body && start.metadata is Some {
        start.metadata->0.metadata.deep_view()
    } else {
        Map::empty()
    }
}

/// Why an upload in several steps is not started.
pub open spec fn start_refusal(start: StartUpload) -> Option<StorageError> {
    if start.has_body && start.metadata is None {
        Some(StorageError::InvalidResumableMetadata)
    } else if either(start.query_name.deep_view(), given_name(start)) is None {
        Some(StorageError::MissingObjectName)
    } else if start.length is Some && parsed_decimal(
        start.length->0@,
        usize::MAX as nat,
    ) is None {
        Some(StorageError::InvalidUploadLength)
    } else {
        None
    }
}

/// An upload in several steps that was just started.
pub open spec fn started(bucket: Seq<char>, start: StartUpload) -> SessionView {
    SessionView {
        project_id: project_of_bucket(bucket),
        bucket,
        name: either(start.query_name.deep_view(), given_name(start))->0,
        content_type: content_type_or_default(
            either(start.content_type.deep_view(), given_type(start)),
        ),
        metadata: given_metadata(start),
        expected_length: match start.length {
            Some(length) => Some(parsed_decimal(length@, usize::MAX as nat)->0 as usize),
            None => None,
        },
        data: Seq::empty(),
        received: 0,
        finalized: false,
    }
}

impl StorageState {
    /// Starts an upload in several steps.
    pub fn start_upload(&mut self, bucket: &str, start: StartUpload, upload_id: &str) -> (r: Result<
        (),
        StorageError,
    >)
        ensures
            match start_refusal(start) {
                Some(e) => r == Err::<(), StorageError>(e) && *final(self) == *old(self),
                None => r is Ok && final(self).deep_view() == old(self).deep_view().with_session(
                    upload_id@,
                    started(bucket@, start),
                ),
            },
    {
        let (given_name, given_type, given_metadata) = if start.has_body {
            match start.metadata {
                Some(given) => (given.name, given.content_type, given.metadata),
                None => {
                    return Err(StorageError::InvalidResumableMetadata);
                },
            }
        } else {
            (None, None, TextMap::new())
        };
        let name = match first_of(start.query_name, given_name) {
            Some(name) => name,
            None => {
                return Err(StorageError::MissingObjectName);
            },
        };
        let content_type = match first_of(start.content_type, given_type) {
            Some(content_type) => content_type,
            None => "application/octet-stream".to_owned(),
        };
        let expected_length: Option<usize> = match &start.length {
            Some(length) => match parse_usize(length.as_str()) {
                Some(n) => Some(n),
                None => {
                    return Err(StorageError::InvalidUploadLength);
                },
            },
            None => None,
        };
        let session = ResumableUploadSession {
            project_id: infer_project_id(bucket),
            bucket: bucket.to_owned(),
            name,
            content_type,
            metadata: given_metadata,
            expected_length,
            data: Vec::new(),
            received: 0,
            finalized: false,
        };
        self.resumable_uploads.insert(upload_id.to_owned(), session);
        Ok(())
    }

    /// Starts an upload in several steps at the JSON API, which does not look at the length, and
    /// gives the place where it goes on.
    pub fn start_resumable_upload(
        &mut self,
        base_url_text: &str,
        bucket: &str,
        start: StartUpload,
        upload_id: &str,
    ) -> (r: Result<String, StorageError>)
        ensures
            (final(self).deep_view(), storage_outcome(r)) == gcs_start_step(
                old(self).deep_view(),
                base_url_text@,
                bucket@,
                start,
                upload_id@,
            ),
    {
        let start = StartUpload {
            query_name: start.query_name,
            content_type: start.content_type,
            length: None,
            has_body: start.has_body,
            metadata: start.metadata,
        };
        match self.start_upload(bucket, start, upload_id) {
            Ok(_) => {
                let mut location = base_url_text.to_owned();
                location.append("/upload/storage/v1/b/");
                location.append(percent_encode(bucket).as_str());
                location.append("/o?uploadType=resumable&upload_id=");
                location.append(percent_encode(upload_id).as_str());
                Ok(location)
            },
            Err(e) => Err(e),
        }
    }

    /// Starts an upload in several steps of a client and gives the place where it goes on.
    pub fn start_firebase_resumable_upload(
        &mut self,
        base_url_text: &str,
        bucket: &str,
        start: StartUpload,
        upload_id: &str,
    ) -> (r: Result<String, StorageError>)
        ensures
            (final(self).deep_view(), storage_outcome(r)) == firebase_start_step(
                old(self).deep_view(),
                base_url_text@,
                bucket@,
                start,
                upload_id@,
            ),
    {
        match self.start_upload(bucket, start, upload_id) {
            Ok(_) => {
                let mut location = base_url_text.to_owned();
                location.append("/v0/b/");
                location.append(percent_encode(bucket).as_str());
                location.append("/o?upload_id=");
                location.append(percent_encode(upload_id).as_str());
                Ok(location)
            },
            Err(e) => Err(e),
        }
    }
}

/// The place where an upload at the JSON API goes on.
pub open spec fn resumable_location(base: Seq<char>, bucket: Seq<char>, upload_id: Seq<char>) -> Seq<
    char,
> {
    base + "/upload/storage/v1/b/"@ + percent_encoded(bucket)
        + "/o?uploadType=resumable&upload_id="@ + percent_encoded(upload_id)
}

/// The place where a client's upload goes on.
pub open spec fn firebase_location(base: Seq<char>, bucket: Seq<char>, upload_id: Seq<char>) -> Seq<
    char,
> {
    base + "/v0/b/"@ + percent_encoded(bucket) + "/o?upload_id="@ + percent_encoded(upload_id)
}

/// The storage after an upload at the JSON API was started, and the place where it goes on. The
/// length is not looked at.
pub open spec fn gcs_start_step(
    v: StorageView,
    base: Seq<char>,
    bucket: Seq<char>,
    start: StartUpload,
    upload_id: Seq<char>,
) -> (StorageView, Result<Seq<char>, StorageError>) {
    let start = StartUpload { length: None, ..start };
    match start_refusal(start) {
        Some(e) => (v, Err(e)),
        None => (
            v.with_session(upload_id, started(bucket, start)),
            Ok(resumable_location(base, bucket, upload_id)),
        ),
    }
}

/// The storage after a client's upload was started, and the place where it goes on.
pub open spec fn firebase_start_step(
    v: StorageView,
    base: Seq<char>,
    bucket: Seq<char>,
    start: StartUpload,
    upload_id: Seq<char>,
) -> (StorageView, Result<Seq<char>, StorageError>) {
    match start_refusal(start) {
        Some(e) => (v, Err(e)),
        None => (
            v.with_session(upload_id, started(bucket, start)),
            Ok(firebase_location(base, bucket, upload_id)),
        ),
    }
}

impl StorageState {
    /// Starts an upload in several steps at the JSON API under a random id.
    pub fn begin_resumable_upload(&mut self, base_url_text: &str, bucket: &str, start: StartUpload) -> (r:
        Result<String, StorageError>)
        ensures
            exists|upload_id: Seq<char>|
                is_uuid(upload_id) && (final(self).deep_view(), storage_outcome(r))
                    == #[trigger] gcs_start_step(
                    old(self).deep_view(),
                    base_url_text@,
                    bucket@,
                    start,
                    upload_id,
                ),
    {
        let upload_id = random_uuid();
        self.start_resumable_upload(base_url_text, bucket, start, upload_id.as_str())
    }

    /// Starts a client's upload in several steps under a random id.
    pub fn begin_firebase_resumable_upload(
        &mut self,
        base_url_text: &str,
        bucket: &str,
        start: StartUpload,
    ) -> (r: Result<String, StorageError>)
        ensures
            exists|upload_id: Seq<char>|
                is_uuid(upload_id) && (final(self).deep_view(), storage_outcome(r))
                    == #[trigger] firebase_start_step(
                    old(self).deep_view(),
                    base_url_text@,
                    bucket@,
                    start,
                    upload_id,
                ),
    {
        let upload_id = random_uuid();
        self.start_firebase_resumable_upload(base_url_text, bucket, start, upload_id.as_str())
    }
}

/// The commands in a header, which commas divide.
pub open spec fn commands_of(header: Seq<char>) -> Seq<Seq<char>> {
    pieces(header, ","@).map_values(|command: Seq<char>| trimmed(command))
}

fn read_commands(header: &str) -> (r: Vec<String>)
    ensures
        r.deep_view() == commands_of(header@),
{
    proof {
        reveal_strlit(",");
    }
    let parts = split(header, ",");
    let ghost wanted = commands_of(header@);
    let mut r: Vec<String> = Vec::new();
    let mut i: usize = 0;
    assert(r.deep_view() =~= wanted.take(0));
    while i < parts.len()
        invariant
            i <= parts@.len(),
            parts.deep_view() == pieces(header@, ","@),
            wanted == commands_of(header@),
            r.deep_view() == wanted.take(i as int),
        decreases parts@.len() - i,
    {
        let ghost before = r.deep_view();
        let part: &str = parts[i];
        assert(parts.deep_view()[i as int] == part@);
        r.push(trim(part).to_owned());
        assert(r.deep_view() =~= before.push(wanted[i as int]));
        i += 1;
        assert(r.deep_view() =~= wanted.take(i as int));
    }
    assert(wanted.take(i as int) =~= wanted);
    r
}

/// The answer to a step of an upload.
#[derive(Debug)]
pub enum ResumableAnswer {
    /// How far the upload is.
    Status { finalized: bool, received: usize },
    /// The upload goes on.
    Active,
    /// The object is stored.
    Final(ObjectMetadata),
}

/// What the answer to a step of an upload holds.
#[verifier::ext_equal]
pub enum ResumableAnswerView {
    Status { finalized: bool, received: usize },
    Active,
    Final(MetadataView),
}

impl DeepView for ResumableAnswer {
    type V = ResumableAnswerView;

    open spec fn deep_view(&self) -> ResumableAnswerView {
        match *self {
            ResumableAnswer::Status { finalized, received } => ResumableAnswerView::Status {
                finalized,
                received,
            },
            ResumableAnswer::Active => ResumableAnswerView::Active,
            ResumableAnswer::Final(told_of) => ResumableAnswerView::Final(told_of.deep_view()),
        }
    }
}

/// The upload of that id, where it is one to the bucket.
pub open spec fn session_in(v: StorageView, bucket: Seq<char>, upload_id: Seq<char>) -> Option<
    SessionView,
> {
    if v.uploads.contains_key(upload_id) && v.uploads[upload_id].bucket == bucket {
        Some(v.uploads[upload_id])
    } else {
        None
    }
}

/// Why a step does not go on with an upload: it has been completed, or the step does not start
/// where the upload is.
pub open spec fn step_refusal(session: SessionView, offset: Option<Seq<char>>) -> Option<
    StorageError,
> {
    if session.finalized {
        Some(StorageError::UploadAlreadyFinalized)
    } else {
        match offset {
            None => Some(StorageError::MissingUploadOffset),
            Some(offset) => if parsed_decimal(offset, usize::MAX as nat) == Some(
                session.received as nat,
            ) {
                None
            } else {
                Some(StorageError::InvalidUploadOffset)
            },
        }
    }
}

/// Whether an upload has room for more bytes.
pub open spec fn chunk_fits(session: SessionView, chunk: Seq<u8>) -> bool {
    &&& session.received + chunk.len() <= usize::MAX
    &&& session.expected_length is Some ==> session.received + chunk.len()
        <= session.expected_length->0
}

/// An upload with more bytes.
pub open spec fn with_chunk(session: SessionView, chunk: Seq<u8>) -> SessionView {
    SessionView {
        data: session.data + chunk,
        received: (session.received + chunk.len()) as usize,
        ..session
    }
}

/// An upload whose object is stored.
pub open spec fn completed_session(session: SessionView) -> SessionView {
    SessionView { data: Seq::empty(), finalized: true, ..session }
}

/// The object that an upload stores.
pub open spec fn session_upload(session: SessionView) -> UploadView {
    UploadView {
        name: session.name,
        content_type: session.content_type,
        metadata: session.metadata,
        data: session.data,
    }
}

/// The storage after an upload was completed, and the answer.
pub open spec fn finalize_step(
    v: StorageView,
    upload_id: Seq<char>,
    session: SessionView,
    now_ms: u64,
) -> (StorageView, Result<ResumableAnswerView, StorageError>) {
    if session.expected_length is Some && session.expected_length->0 != session.received {
        (v.with_session(upload_id, session), Err(StorageError::InvalidUploadLength))
    } else {
        let (w, told_of) = upload_step(
            v.with_session(upload_id, completed_session(session)),
            session.project_id,
            session.bucket,
            session_upload(session),
            now_ms,
        );
        (
            w,
            match told_of {
                Ok(told_of) => Ok(ResumableAnswerView::Final(told_of)),
                Err(e) => Err(e),
            },
        )
    }
}

/// The storage after a step of an upload, and the answer.
pub open spec fn firebase_step(
    v: StorageView,
    bucket: Seq<char>,
    upload_id: Seq<char>,
    command: Option<Seq<char>>,
    offset: Option<Seq<char>>,
    body: Seq<u8>,
    now_ms: u64,
) -> (StorageView, Result<ResumableAnswerView, StorageError>) {
    match command {
        None => (v, Err(StorageError::MissingUploadCommand)),
        Some(command) => {
            let commands = commands_of(command);
            if commands.contains("query"@) {
                match session_in(v, bucket, upload_id) {
                    Some(session) => (
                        v,
                        Ok(
                            ResumableAnswerView::Status {
                                finalized: session.finalized,
                                received: session.received,
                            },
                        ),
                    ),
                    None => (v, Err(StorageError::UploadSessionNotFound)),
                }
            } else if !commands.contains("upload"@) && !commands.contains("finalize"@) {
                (v, Err(StorageError::InvalidUploadCommand))
            } else {
                match session_in(v, bucket, upload_id) {
                    None => (v, Err(StorageError::UploadSessionNotFound)),
                    Some(session) => match step_refusal(session, offset) {
                        Some(e) => (v, Err(e)),
                        None => if commands.contains("upload"@) && !chunk_fits(session, body) {
                            (v, Err(StorageError::InvalidUploadLength))
                        } else {
                            let fed = if commands.contains("upload"@) {
                                with_chunk(session, body)
                            } else {
                                session
                            };
                            if commands.contains("finalize"@) {
                                finalize_step(v, upload_id, fed, now_ms)
                            } else {
                                (v.with_session(upload_id, fed), Ok(ResumableAnswerView::Active))
                            }
                        },
                    },
                }
            }
        },
    }
}

/// Whether an upload that is completed finds room for its generation.
pub open spec fn session_has_room(v: StorageView, upload_id: Seq<char>) -> bool {
    v.uploads.contains_key(upload_id) ==> generation_fits(
        v.objects(v.uploads[upload_id].project_id, v.uploads[upload_id].bucket),
        v.uploads[upload_id].name,
    )
}

fn check_offset(session: &ResumableUploadSession, offset: Option<&str>) -> (r: Result<
    (),
    StorageError,
>)
    ensures
        match step_refusal(session.deep_view(), offset.deep_view()) {
            Some(e) => r == Err::<(), StorageError>(e),
            None => r is Ok,
        },
{
    if session.finalized {
        return Err(StorageError::UploadAlreadyFinalized);
    }
    let offset = match offset {
        Some(offset) => offset,
        None => {
            return Err(StorageError::MissingUploadOffset);
        },
    };
    match parse_usize(offset) {
        Some(n) => {
            if n != session.received {
                return Err(StorageError::InvalidUploadOffset);
            }
        },
        None => {
            return Err(StorageError::InvalidUploadOffset);
        },
    }
    Ok(())
}

fn check_chunk(session: &ResumableUploadSession, body: &[u8]) -> (r: bool)
    ensures
        r == chunk_fits(session.deep_view(), body@),
{
    if body.len() > usize::MAX - session.received {
        return false;
    }
    match session.expected_length {
        Some(expected) => session.received + body.len() <= expected,
        None => true,
    }
}

impl StorageState {
    /// Whether an upload that is completed finds room for its generation.
    pub fn can_finalize(&self, upload_id: &str) -> (r: bool)
        ensures
            r == session_has_room(self.deep_view(), upload_id@),
    {
        match self.resumable_uploads.get(upload_id) {
            Some(session) => self.has_room(
                session.project_id.as_str(),
                session.bucket.as_str(),
                session.name.as_str(),
            ),
            None => true,
        }
    }

    fn finalize(&mut self, upload_id: &str, session: ResumableUploadSession, now_ms: u64) -> (r:
        Result<ResumableAnswer, StorageError>)
        requires
            generation_fits(
                old(self).deep_view().objects(session.project_id@, session.bucket@),
                session.name@,
            ),
        ensures
            (final(self).deep_view(), storage_outcome(r)) == finalize_step(
                old(self).deep_view(),
                upload_id@,
                session.deep_view(),
                now_ms,
            ),
    {
        if let Some(expected) = session.expected_length {
            if session.received != expected {
                self.resumable_uploads.insert(upload_id.to_owned(), session);
                return Err(StorageError::InvalidUploadLength);
            }
        }
        let upload = ParsedUpload {
            name: session.name.clone(),
            content_type: session.content_type.clone(),
            metadata: clone_texts(&session.metadata),
            data: session.data,
        };
        let project_id = session.project_id.clone();
        let bucket = session.bucket.clone();
        let done = ResumableUploadSession {
            project_id: session.project_id,
            bucket: session.bucket,
            name: session.name,
            content_type: session.content_type,
            metadata: session.metadata,
            expected_length: session.expected_length,
            data: Vec::new(),
            received: session.received,
            finalized: true,
        };
        self.resumable_uploads.insert(upload_id.to_owned(), done);
        match self.upload_object(project_id.as_str(), bucket.as_str(), upload, now_ms) {
            Ok(told_of) => Ok(ResumableAnswer::Final(told_of)),
            Err(e) => Err(e),
        }
    }

    /// Takes a client's step of an upload: a query, more bytes, the completion, or both of the
    /// latter.
    pub fn handle_firebase_resumable_upload(
        &mut self,
        bucket: &str,
        upload_id: &str,
        command: Option<&str>,
        offset: Option<&str>,
        body: &[u8],
        now_ms: u64,
    ) -> (r: Result<ResumableAnswer, StorageError>)
        requires
            session_has_room(old(self).deep_view(), upload_id@),
        ensures
            (final(self).deep_view(), storage_outcome(r)) == firebase_step(
                old(self).deep_view(),
                bucket@,
                upload_id@,
                command.deep_view(),
                offset.deep_view(),
                body@,
                now_ms,
            ),
    {
        let ghost before = self.deep_view();
        let command = match command {
            Some(command) => command,
            None => {
                return Err(StorageError::MissingUploadCommand);
            },
        };
        let commands = read_commands(command);
        if list_contains(&commands, "query") {
            return match self.resumable_uploads.get(upload_id) {
                Some(session) => {
                    if same_text(session.bucket.as_str(), bucket) {
                        Ok(
                            ResumableAnswer::Status {
                                finalized: session.finalized,
                                received: session.received,
                            },
                        )
                    } else {
                        Err(StorageError::UploadSessionNotFound)
                    }
                },
                None => Err(StorageError::UploadSessionNotFound),
            };
        }
        let should_upload = list_contains(&commands, "upload");
        let should_finalize = list_contains(&commands, "finalize");
        if !should_upload && !should_finalize {
            return Err(StorageError::InvalidUploadCommand);
        }
        match self.resumable_uploads.get(upload_id) {
            Some(session) => {
                if !same_text(session.bucket.as_str(), bucket) {
                    return Err(StorageError::UploadSessionNotFound);
                }
                if let Err(e) = check_offset(session, offset) {
                    return Err(e);
                }
                if should_upload && !check_chunk(session, body) {
                    return Err(StorageError::InvalidUploadLength);
                }
            },
            None => {
                return Err(StorageError::UploadSessionNotFound);
            },
        }
        let mut session = self.resumable_uploads.remove(upload_id).unwrap();
        let ghost held = session.deep_view();
        if should_upload {
            session.data.extend_from_slice(body);
            session.received = session.received + body.len();
            assert(session.data@ =~= held.data + body@);
        }
        let ghost fed = session.deep_view();
        proof {
            let now = self.deep_view();
            assert forall|s: SessionView| #[trigger] now.with_session(upload_id@, s)
                == before.with_session(upload_id@, s) by {
                assert(before.uploads.remove(upload_id@).insert(upload_id@, s)
                    =~= before.uploads.insert(upload_id@, s));
            }
        }
        if !should_finalize {
            self.resumable_uploads.insert(upload_id.to_owned(), session);
            assert(self.deep_view() == before.with_session(upload_id@, fed));
            return Ok(ResumableAnswer::Active);
        }
        proof {
            assert(self.deep_view().with_session(upload_id@, fed) == before.with_session(
                upload_id@,
                fed,
            ));
            assert(self.deep_view().with_session(upload_id@, completed_session(fed))
                == before.with_session(upload_id@, completed_session(fed)));
        }
        self.finalize(upload_id, session, now_ms)
    }
}

/// Whether a step of an upload only asks how far it is.
pub open spec fn is_status_query(content_range: Option<Seq<char>>, body_is_empty: bool) -> bool {
    body_is_empty && content_range is Some && "bytes */"@.is_prefix_of(content_range->0)
}

/// Whether a step of an upload only asks how far it is: one without a body that names no range.
pub fn is_resumable_status_query(content_range: Option<&str>, body_is_empty: bool) -> (r: bool)
    ensures
        r == is_status_query(content_range.deep_view(), body_is_empty),
{
    match content_range {
        Some(range) => body_is_empty && starts_with(range, "bytes */"),
        None => false,
    }
}

/// A step of an upload at the JSON API.
#[derive(Debug)]
pub struct GcsChunk {
    pub upload_type: Option<String>,
    pub upload_id: Option<String>,
    pub content_range: Option<String>,
    pub content_type: Option<String>,
    pub body: Vec<u8>,
}

/// The answer to a step of an upload at the JSON API.
#[derive(Debug)]
pub enum GcsAnswer {
    /// The upload goes on.
    Incomplete,
    /// The object is stored.
    Stored(ObjectMetadata),
}

/// What the answer to a step of an upload at the JSON API holds.
#[verifier::ext_equal]
pub enum GcsAnswerView {
    Incomplete,
    Stored(MetadataView),
}

impl DeepView for GcsAnswer {
    type V = GcsAnswerView;

    open spec fn deep_view(&self) -> GcsAnswerView {
        match *self {
            GcsAnswer::Incomplete => GcsAnswerView::Incomplete,
            GcsAnswer::Stored(told_of) => GcsAnswerView::Stored(told_of.deep_view()),
        }
    }
}

/// The object that the one chunk of an upload stores.
pub open spec fn chunk_upload(session: SessionView, chunk: GcsChunk) -> UploadView {
    UploadView {
        name: session.name,
        content_type: if chunk.content_type is Some && chunk.content_type->0@.len() > 0 {
            chunk.content_type->0@
        } else {
            session.content_type
        },
        metadata: session.metadata,
        data: chunk.body@,
    }
}

/// The storage after a step of an upload at the JSON API, and the answer. The upload is over
/// after the step, unless the step only asked how far it is.
pub open spec fn gcs_chunk_step(
    v: StorageView,
    bucket: Seq<char>,
    chunk: GcsChunk,
    now_ms: u64,
) -> (StorageView, Result<GcsAnswerView, StorageError>) {
    if chunk.upload_type.deep_view() != Some("resumable"@) {
        (v, Err(StorageError::UnsupportedUploadType))
    } else if chunk.upload_id is None {
        (v, Err(StorageError::MissingUploadId))
    } else if !v.uploads.contains_key(chunk.upload_id->0@) {
        (v, Err(StorageError::UploadSessionNotFound))
    } else {
        let upload_id = chunk.upload_id->0@;
        let session = v.uploads[upload_id];
        let w = StorageView { uploads: v.uploads.remove(upload_id), ..v };
        if session.bucket != bucket {
            (w, Err(StorageError::UploadSessionNotFound))
        } else if is_status_query(chunk.content_range.deep_view(), chunk.body@.len() == 0) {
            (v, Ok(GcsAnswerView::Incomplete))
        } else {
            let (x, told_of) = upload_step(
                w,
                session.project_id,
                session.bucket,
                chunk_upload(session, chunk),
                now_ms,
            );
            (
                x,
                match told_of {
                    Ok(told_of) => Ok(GcsAnswerView::Stored(told_of)),
                    Err(e) => Err(e),
                },
            )
        }
    }
}

impl StorageState {
    /// Takes a step of an upload at the JSON API.
    pub fn upload_gcs_resumable_chunk(&mut self, bucket: &str, chunk: GcsChunk, now_ms: u64) -> (r:
        Result<GcsAnswer, StorageError>)
        requires
            chunk.upload_id is Some ==> session_has_room(
                old(self).deep_view(),
                chunk.upload_id->0@,
            ),
        ensures
            (final(self).deep_view(), storage_outcome(r)) == gcs_chunk_step(
                old(self).deep_view(),
                bucket@,
                chunk,
                now_ms,
            ),
    {
        let ghost before = self.deep_view();
        let resumable = match &chunk.upload_type {
            Some(upload_type) => same_text(upload_type.as_str(), "resumable"),
            None => false,
        };
        if !resumable {
            return Err(StorageError::UnsupportedUploadType);
        }
        let upload_id = match &chunk.upload_id {
            Some(upload_id) => upload_id.clone(),
            None => {
                return Err(StorageError::MissingUploadId);
            },
        };
        let session = match self.resumable_uploads.remove(upload_id.as_str()) {
            Some(session) => session,
            None => {
                assert(before.uploads.remove(upload_id@) =~= before.uploads);
                return Err(StorageError::UploadSessionNotFound);
            },
        };
        if !same_text(session.bucket.as_str(), bucket) {
            return Err(StorageError::UploadSessionNotFound);
        }
        let range = match &chunk.content_range {
            Some(range) => Some(range.as_str()),
            None => None,
        };
        if is_resumable_status_query(range, chunk.body.len() == 0) {
            let ghost held = session.deep_view();
            self.resumable_uploads.insert(upload_id, session);
            assert(before.uploads.remove(upload_id@).insert(upload_id@, held) =~= before.uploads);
            return Ok(GcsAnswer::Incomplete);
        }
        let content_type = match chunk.content_type {
            Some(content_type) => {
                if content_type.as_str().is_empty() {
                    session.content_type
                } else {
                    content_type
                }
            },
            None => session.content_type,
        };
        let upload = ParsedUpload {
            name: session.name,
            content_type,
            metadata: session.metadata,
            data: chunk.body,
        };
        match self.upload_object(
            session.project_id.as_str(),
            session.bucket.as_str(),
            upload,
            now_ms,
        ) {
            Ok(told_of) => Ok(GcsAnswer::Stored(told_of)),
            Err(e) => Err(e),
        }
    }
}

/// How an upload at the JSON API goes: at once, or in several steps.
#[derive(Clone, Copy, PartialEq, Eq, Structural, Debug)]
pub enum GcsUploadRoute {
    Direct,
    Resumable,
}

/// How an upload is made, by its type.
pub open spec fn gcs_route(upload_type: Option<Seq<char>>) -> Result<GcsUploadRoute, StorageError> {
    match upload_type {
        None => Ok(GcsUploadRoute::Direct),
        Some(kind) => if kind == "resumable"@ {
            Ok(GcsUploadRoute::Resumable)
        } else if kind == "media"@ || kind == "multipart"@ {
            Ok(GcsUploadRoute::Direct)
        } else {
            Err(StorageError::UnsupportedUploadType)
        },
    }
}

/// How an upload at the JSON API goes.
pub fn route_gcs_upload(upload_type: Option<&str>) -> (r: Result<GcsUploadRoute, StorageError>)
    ensures
        r == gcs_route(upload_type.deep_view()),
{
    match upload_type {
        None => Ok(GcsUploadRoute::Direct),
        Some(kind) => {
            if same_text(kind, "resumable") {
                Ok(GcsUploadRoute::Resumable)
            } else if same_text(kind, "media") || same_text(kind, "multipart") {
                Ok(GcsUploadRoute::Direct)
            } else {
                Err(StorageError::UnsupportedUploadType)
            }
        },
    }
}

/// How a client's upload goes: at once, as the start of several steps, or as one of them.
#[derive(Clone, Copy, PartialEq, Eq, Structural, Debug)]
pub enum FirebaseUploadRoute {
    Direct,
    Start,
    Step,
}

/// How an upload of a client is made, by its protocol and the upload that it goes on with.
pub open spec fn firebase_route(
    protocol: Option<Seq<char>>,
    upload_id: Option<Seq<char>>,
) -> FirebaseUploadRoute {
    if protocol == Some("resumable"@) {
        FirebaseUploadRoute::Start
    } else if upload_id is Some {
        FirebaseUploadRoute::Step
    } else {
        FirebaseUploadRoute::Direct
    }
}

/// How a client's upload goes, by the protocol in its headers and the upload that it names.
pub fn route_firebase_upload(protocol: Option<&str>, upload_id: Option<&str>) -> (r:
    FirebaseUploadRoute)
    ensures
        r == firebase_route(protocol.deep_view(), upload_id.deep_view()),
{
    let resumable = match protocol {
        Some(protocol) => same_text(protocol, "resumable"),
        None => false,
    };
    if resumable {
        FirebaseUploadRoute::Start
    } else if upload_id.is_some() {
        FirebaseUploadRoute::Step
    } else {
        FirebaseUploadRoute::Direct
    }
}

} // verus!
