use firelite::storage::errors::StorageError;
use firelite::storage::events::{
    new_object_finalized_event, object_as_json, object_finalize_context, object_finalized_event,
};
use firelite::storage::multipart::{
    assemble_upload, find_boundary, frame_upload, parse_multipart_body, parts_of_text,
    UploadFrame, UploadMetadata,
};
use firelite::storage::objects::{infer_project_id, ListQuery, ParsedUpload};
use firelite::storage::sessions::{
    is_resumable_status_query, route_firebase_upload, route_gcs_upload, FirebaseUploadRoute,
    GcsAnswer, GcsChunk, GcsUploadRoute, ResumableAnswer, StartUpload,
};
use firelite::storage::state::{ObjectAnswer, StorageState};
use firelite::text_map::TextMap;

const BUCKET: &str = "demo-firelite.appspot.com";
const BASE: &str = "http://127.0.0.1:9199";

fn owned(text: &str) -> Option<String> {
    Some(text.to_string())
}

fn plain(name: &str, content_type: &str, data: &[u8]) -> ParsedUpload {
    let frame = frame_upload(Some(content_type), data).unwrap();
    assemble_upload(frame, owned(name), None, data.to_vec()).unwrap()
}

fn all() -> ListQuery {
    ListQuery {
        prefix: None,
        max_results: None,
    }
}

fn named(name: &str, content_type: Option<&str>) -> UploadMetadata {
    UploadMetadata {
        name: owned(name),
        content_type: content_type.map(|text| text.to_string()),
        metadata: TextMap::new(),
    }
}

#[test]
fn storage_gcs_upload_metadata_download_list_delete_flow() {
    let mut state = StorageState::new();
    let project = infer_project_id(BUCKET);
    assert_eq!(route_gcs_upload(Some("media")), Ok(GcsUploadRoute::Direct));
    assert!(state.has_room(&project, BUCKET, "folder/hello.txt"));
    let uploaded = state
        .upload_object(
            &project,
            BUCKET,
            plain("folder/hello.txt", "text/plain", b"hello storage"),
            1_000,
        )
        .unwrap();
    assert_eq!(uploaded.bucket, BUCKET);
    assert_eq!(uploaded.name, "folder/hello.txt");
    assert_eq!(uploaded.size, "13");
    assert_eq!(uploaded.content_type, "text/plain");
    assert_eq!(uploaded.kind, "storage#object");
    assert_eq!(uploaded.generation, "1");
    assert_eq!(uploaded.metageneration, "1");
    assert_eq!(uploaded.id, "demo-firelite.appspot.com/folder/hello.txt/1");
    assert_eq!(uploaded.time_created, "1000");

    let object = state.find_object(&project, BUCKET, "folder/hello.txt").unwrap();
    assert_eq!(object.name, "folder/hello.txt");
    assert_eq!(object.data, b"hello storage");
    match state.get_object(&project, BUCKET, "folder/hello.txt", None).unwrap() {
        ObjectAnswer::Metadata(metadata) => assert_eq!(metadata.name, "folder/hello.txt"),
        ObjectAnswer::Media(_) => panic!("expected metadata"),
    }
    match state.get_object(&project, BUCKET, "folder/hello.txt", Some("media")).unwrap() {
        ObjectAnswer::Media(downloaded) => assert_eq!(downloaded.data, b"hello storage"),
        ObjectAnswer::Metadata(_) => panic!("expected the bytes"),
    }

    let query = ListQuery {
        prefix: owned("folder/"),
        max_results: None,
    };
    assert_eq!(state.list_objects(&project, BUCKET, &query).len(), 1);
    assert!(state.delete_object(&project, BUCKET, "folder/hello.txt").is_ok());
    let missing = state.get_object(&project, BUCKET, "folder/hello.txt", None).unwrap_err();
    assert_eq!(missing.status(), 404);
    assert_eq!(missing.message(), "OBJECT_NOT_FOUND");
    assert_eq!(missing.reason(), "Not Found");
    assert_eq!(
        state.delete_object(&project, BUCKET, "folder/hello.txt"),
        Err(StorageError::ObjectNotFound)
    );
}

#[test]
fn storage_firebase_v0_upload_and_project_scoped_reset() {
    let mut state = StorageState::default();
    let bucket = "demo-storage.appspot.com";
    let project = infer_project_id(bucket);
    assert_eq!(project, "demo-storage");
    state
        .upload_object(&project, bucket, plain("avatars/alice.png", "image/png", &[0, 1, 2, 3]), 1)
        .unwrap();
    let listed = state.list_objects("demo-storage", bucket, &all());
    assert_eq!(listed[0].name, "avatars/alice.png");
    state.reset_emulator_bucket("demo-storage", bucket);
    assert_eq!(state.list_objects(&project, bucket, &all()).len(), 0);
}

#[test]
fn storage_management_create_list_delete_flow() {
    let mut state = StorageState::new();
    let project = infer_project_id(BUCKET);
    let created = state
        .upload_object(&project, BUCKET, plain("uploads/sample.txt", "text/plain", b"hello"), 1)
        .unwrap();
    assert_eq!(created.name, "uploads/sample.txt");
    assert_eq!(created.size, "5");
    assert_eq!(state.list_objects(&project, BUCKET, &all()).len(), 1);
    state.delete_object(&project, BUCKET, "uploads/sample.txt").unwrap();
    assert_eq!(state.list_objects(&project, BUCKET, &all()).len(), 0);
}

#[test]
fn storage_gcs_resumable_upload_flow() {
    let mut state = StorageState::new();
    assert_eq!(route_gcs_upload(Some("resumable")), Ok(GcsUploadRoute::Resumable));
    let location = state
        .begin_resumable_upload(
            BASE,
            BUCKET,
            StartUpload {
                query_name: owned("reports/bank.csv"),
                content_type: owned("text/csv"),
                length: None,
                has_body: true,
                metadata: Some(named("reports/bank.csv", Some("text/csv"))),
            },
        )
        .unwrap();
    assert!(location.starts_with(BASE));
    assert!(location.contains("uploadType=resumable"));
    let id = location.rsplit("upload_id=").next().unwrap();

    assert!(state.can_finalize(id));
    let answer = state
        .upload_gcs_resumable_chunk(
            BUCKET,
            GcsChunk {
                upload_type: owned("resumable"),
                upload_id: owned(id),
                content_range: owned("bytes 0-15/16"),
                content_type: owned("text/csv"),
                body: b"date,amount\n1,2\n".to_vec(),
            },
            7,
        )
        .unwrap();
    let uploaded = match answer {
        GcsAnswer::Stored(uploaded) => uploaded,
        GcsAnswer::Incomplete => panic!("the object should be stored"),
    };
    assert_eq!(uploaded.bucket, BUCKET);
    assert_eq!(uploaded.name, "reports/bank.csv");
    assert_eq!(uploaded.content_type, "text/csv");
    assert_eq!(uploaded.size, "16");
}

fn firebase_start(name: &str, length: &str, content_type: Option<&str>) -> StartUpload {
    StartUpload {
        query_name: owned(name),
        content_type: content_type.map(|text| text.to_string()),
        length: owned(length),
        has_body: true,
        metadata: Some(named(name, None)),
    }
}

fn received(answer: Result<ResumableAnswer, StorageError>) -> (bool, usize) {
    match answer {
        Ok(ResumableAnswer::Status { finalized, received }) => (finalized, received),
        other => panic!("expected a status, got {other:?}"),
    }
}

#[test]
fn storage_firebase_resumable_upload_flow() {
    let mut state = StorageState::new();
    assert_eq!(
        route_firebase_upload(Some("resumable"), None),
        FirebaseUploadRoute::Start
    );
    let url = state
        .begin_firebase_resumable_upload(
            BASE,
            BUCKET,
            firebase_start("leases/agreement.pdf", "8", Some("application/pdf")),
        )
        .unwrap();
    assert!(url.starts_with(BASE));
    let id = url.rsplit("upload_id=").next().unwrap();

    let first = state
        .handle_firebase_resumable_upload(BUCKET, id, Some("upload"), Some("0"), b"abcd", 1)
        .unwrap();
    assert!(matches!(first, ResumableAnswer::Active));
    let query = state.handle_firebase_resumable_upload(BUCKET, id, Some("query"), None, b"", 2);
    assert_eq!(received(query), (false, 4));
    let finalized = state
        .handle_firebase_resumable_upload(BUCKET, id, Some("upload, finalize"), Some("4"), b"efgh", 3)
        .unwrap();
    match finalized {
        ResumableAnswer::Final(told) => {
            assert_eq!(told.name, "leases/agreement.pdf");
            assert_eq!(told.size, "8");
            assert_eq!(told.content_type, "application/pdf");
        }
        other => panic!("expected the object, got {other:?}"),
    }
    let completed = state.handle_firebase_resumable_upload(BUCKET, id, Some("query"), None, b"", 4);
    assert_eq!(received(completed), (true, 8));
    let object = state
        .find_object("demo-firelite", BUCKET, "leases/agreement.pdf")
        .unwrap();
    assert_eq!(object.data, b"abcdefgh");

    let again =
        state.handle_firebase_resumable_upload(BUCKET, id, Some("upload"), Some("8"), b"x", 5);
    assert_eq!(again.unwrap_err(), StorageError::UploadAlreadyFinalized);
}

#[test]
fn storage_firebase_resumable_rejects_chunk_without_advancing_offset() {
    let mut state = StorageState::new();
    state
        .start_firebase_resumable_upload(BASE, BUCKET, firebase_start("too-large.txt", "4", None), "u1")
        .unwrap();
    let rejected = state
        .handle_firebase_resumable_upload(BUCKET, "u1", Some("upload"), Some("0"), b"12345", 1)
        .unwrap_err();
    assert_eq!(rejected.status(), 400);
    let query = state.handle_firebase_resumable_upload(BUCKET, "u1", Some("query"), None, b"", 2);
    assert_eq!(received(query), (false, 0));
}

#[test]
fn malformed_steps_are_refused() {
    let mut state = StorageState::new();
    state
        .start_firebase_resumable_upload(BASE, BUCKET, firebase_start("a.txt", "4", None), "u1")
        .unwrap();
    let mut step = |bucket: &str, id: &str, command: Option<&str>, offset: Option<&str>| {
        state
            .handle_firebase_resumable_upload(bucket, id, command, offset, b"ab", 1)
            .unwrap_err()
    };
    assert_eq!(step(BUCKET, "u1", None, None), StorageError::MissingUploadCommand);
    assert_eq!(step(BUCKET, "u1", Some("dance"), None), StorageError::InvalidUploadCommand);
    assert_eq!(
        step(BUCKET, "u2", Some("query"), None),
        StorageError::UploadSessionNotFound
    );
    assert_eq!(
        step("other", "u1", Some("query"), None),
        StorageError::UploadSessionNotFound
    );
    assert_eq!(step(BUCKET, "u1", Some("upload"), None), StorageError::MissingUploadOffset);
    assert_eq!(
        step(BUCKET, "u1", Some("upload"), Some("1")),
        StorageError::InvalidUploadOffset
    );
    assert_eq!(
        step(BUCKET, "u1", Some("upload"), Some("x")),
        StorageError::InvalidUploadOffset
    );
    assert_eq!(
        step(BUCKET, "u1", Some("upload, finalize"), Some("0")),
        StorageError::InvalidUploadLength
    );
}

#[test]
fn malformed_starts_are_refused() {
    let mut state = StorageState::new();
    let mut start = firebase_start("a.txt", "4", None);
    start.metadata = None;
    assert_eq!(
        state.start_resumable_upload(BASE, BUCKET, start, "u"),
        Err(StorageError::InvalidResumableMetadata)
    );
    let mut start = firebase_start("a.txt", "4", None);
    start.query_name = None;
    start.has_body = false;
    start.metadata = None;
    assert_eq!(
        state.start_resumable_upload(BASE, BUCKET, start, "u"),
        Err(StorageError::MissingObjectName)
    );
    assert_eq!(
        state.start_firebase_resumable_upload(BASE, BUCKET, firebase_start("a.txt", "four", None), "u"),
        Err(StorageError::InvalidUploadLength)
    );
}

#[test]
fn gcs_steps_are_checked() {
    let mut state = StorageState::new();
    state
        .start_resumable_upload(BASE, BUCKET, firebase_start("a.txt", "4", None), "u1")
        .unwrap();
    let chunk = |kind: Option<&str>, id: Option<&str>, range: Option<&str>, body: &[u8]| GcsChunk {
        upload_type: kind.map(|text| text.to_string()),
        upload_id: id.map(|text| text.to_string()),
        content_range: range.map(|text| text.to_string()),
        content_type: None,
        body: body.to_vec(),
    };
    let refused = state.upload_gcs_resumable_chunk(BUCKET, chunk(Some("media"), Some("u1"), None, b""), 1);
    assert_eq!(refused.unwrap_err(), StorageError::UnsupportedUploadType);
    let refused = state.upload_gcs_resumable_chunk(BUCKET, chunk(Some("resumable"), None, None, b""), 1);
    assert_eq!(refused.unwrap_err(), StorageError::MissingUploadId);
    let refused = state.upload_gcs_resumable_chunk(BUCKET, chunk(Some("resumable"), Some("u2"), None, b""), 1);
    assert_eq!(refused.unwrap_err(), StorageError::UploadSessionNotFound);
    let asked = state.upload_gcs_resumable_chunk(
        BUCKET,
        chunk(Some("resumable"), Some("u1"), Some("bytes */4"), b""),
        1,
    );
    assert!(matches!(asked, Ok(GcsAnswer::Incomplete)));
    assert!(is_resumable_status_query(Some("bytes */4"), true));
    assert!(!is_resumable_status_query(Some("bytes 0-3/4"), false));
    let stored = state.upload_gcs_resumable_chunk(BUCKET, chunk(Some("resumable"), Some("u1"), None, b"abcd"), 1);
    assert!(matches!(stored, Ok(GcsAnswer::Stored(_))));
}

#[test]
fn uploads_are_routed() {
    assert_eq!(route_gcs_upload(None), Ok(GcsUploadRoute::Direct));
    assert_eq!(route_gcs_upload(Some("multipart")), Ok(GcsUploadRoute::Direct));
    assert_eq!(route_gcs_upload(Some("x")), Err(StorageError::UnsupportedUploadType));
    assert_eq!(route_firebase_upload(None, Some("u")), FirebaseUploadRoute::Step);
    assert_eq!(route_firebase_upload(Some("multipart"), None), FirebaseUploadRoute::Direct);
}

#[test]
fn generations_go_up_and_other_objects_stay() {
    let mut state = StorageState::new();
    state.upload_object("p", "b", plain("x", "text/plain", b"1"), 10).unwrap();
    state.upload_object("p", "b", plain("y", "text/plain", b"2"), 11).unwrap();
    let second = state.upload_object("p", "b", plain("x", "text/html", b"three"), 12).unwrap();
    assert_eq!(second.generation, "2");
    assert_eq!(second.size, "5");
    assert_eq!(second.time_created, "10");
    assert_eq!(second.updated, "12");
    let other = state.find_object("p", "b", "y").unwrap();
    assert_eq!((other.generation, other.updated_at_ms), (1, 11));
    assert!(state.find_object("q", "b", "x").is_err());
}

#[test]
fn lists_are_in_order_and_bounded() {
    let mut state = StorageState::new();
    for name in ["b/2", "a", "b/1", "c"] {
        state.upload_object("p", "b", plain(name, "text/plain", b""), 1).unwrap();
    }
    let names = |prefix: Option<&str>, max_results: Option<usize>| -> Vec<String> {
        let query = ListQuery {
            prefix: prefix.map(|text| text.to_string()),
            max_results,
        };
        let listed = state.list_objects("p", "b", &query);
        listed.into_iter().map(|told| told.name).collect()
    };
    assert_eq!(names(None, None), vec!["a", "b/1", "b/2", "c"]);
    assert_eq!(names(Some("b/"), None), vec!["b/1", "b/2"]);
    assert_eq!(names(Some("b/"), Some(1)), vec!["b/1"]);
    assert!(state.list_objects("p", "none", &all()).is_empty());
}

#[test]
fn buckets_belong_to_projects() {
    assert_eq!(infer_project_id("my-app.firebasestorage.app"), "my-app");
    assert_eq!(infer_project_id("custom-bucket"), "demo-firelite");
}

const MULTIPART: &[u8] = b"--xyz\r\nContent-Type: application/json\r\n\r\n{\"name\":\"a.txt\"}\r\n--xyz\r\nContent-Type: text/plain\r\n\r\nhello\r\n--xyz--";

#[test]
fn multipart_uploads_are_taken_apart() {
    assert_eq!(
        find_boundary("multipart/related; boundary=\"xyz\""),
        Some("xyz".to_string())
    );
    assert_eq!(find_boundary("multipart/related"), None);
    let parts = parse_multipart_body(MULTIPART, "xyz").unwrap();
    assert_eq!(parts.len(), 2);
    assert_eq!(parts[0].body, b"{\"name\":\"a.txt\"}");
    assert_eq!(parts[1].content_type.as_deref(), Some("text/plain"));
    assert_eq!(parts[1].body, b"hello");
    assert_eq!(
        parts_of_text("--xyz\r\nno header\r\n--xyz--", "xyz").unwrap_err(),
        StorageError::InvalidMultipartUpload
    );

    let frame = frame_upload(Some("multipart/related; boundary=xyz"), MULTIPART).unwrap();
    match &frame {
        UploadFrame::Multipart { metadata, media } => {
            assert_eq!(metadata, b"{\"name\":\"a.txt\"}");
            assert_eq!(media.body, b"hello");
        }
        UploadFrame::Plain { .. } => panic!("expected parts"),
    }
    let upload =
        assemble_upload(frame, None, Some(named("a.txt", None)), MULTIPART.to_vec()).unwrap();
    assert_eq!(upload.name, "a.txt");
    assert_eq!(upload.content_type, "text/plain");
    assert_eq!(upload.data, b"hello");
    assert_eq!(
        frame_upload(Some("multipart/related"), MULTIPART).unwrap_err(),
        StorageError::InvalidMultipartUpload
    );
}

#[test]
fn plain_uploads_need_a_name() {
    let frame = frame_upload(None, b"data").unwrap();
    match &frame {
        UploadFrame::Plain { content_type } => {
            assert_eq!(content_type, "application/octet-stream")
        }
        UploadFrame::Multipart { .. } => panic!("expected plain data"),
    }
    assert_eq!(
        assemble_upload(frame, None, None, b"data".to_vec()).unwrap_err(),
        StorageError::MissingObjectName
    );
}

#[test]
fn stored_objects_are_announced() {
    let mut state = StorageState::new();
    let told = state
        .upload_object("p", "b", plain("x", "text/plain", b"123456789"), 1_709_210_096_789)
        .unwrap();
    assert_eq!(told.crc32c, "4waSgw==");
    let event = object_finalized_event(&told, "event-1");
    assert_eq!(event.text_in("type"), Some("google.cloud.storage.object.v1.finalized"));
    assert_eq!(
        event.text_in("source"),
        Some("//storage.googleapis.com/projects/_/buckets/b")
    );
    assert_eq!(event.text_in("subject"), Some("objects/x"));
    assert_eq!(event.text_in("id"), Some("event-1"));
    assert_eq!(event.text_in("specversion"), Some("1.0"));
    assert_eq!(event.text_in("time"), Some("2024-02-29T12:34:56.789Z"));
    let data = event.get("data").unwrap();
    assert_eq!(data.text_in("crc32c"), Some("4waSgw=="));
    assert_eq!(data.text_in("size"), Some("9"));
    let context = object_finalize_context(&told, "event-1");
    assert_eq!(context.text_in("eventId"), Some("event-1"));
    assert_eq!(context.text_in("eventType"), Some("google.storage.object.finalize"));
    assert_eq!(
        context.get("resource").unwrap().text_in("name"),
        Some("projects/_/buckets/b/objects/x")
    );
    assert_eq!(object_as_json(&told).render(), data.render());
    let first = new_object_finalized_event(&told);
    let second = new_object_finalized_event(&told);
    assert_ne!(first.text_in("id"), second.text_in("id"));
}

#[test]
fn storage_errors_have_answers() {
    assert_eq!(StorageError::InvalidUploadHeader.status(), 500);
    assert_eq!(StorageError::InvalidUploadHeader.reason(), "Internal Server Error");
    assert_eq!(StorageError::InvalidUploadLocation.message(), "INVALID_UPLOAD_LOCATION");
    assert_eq!(StorageError::MissingUploadId.reason(), "Bad Request");
}
