//! What an upload stores, by each of the ways to upload, and what is told of it.

use crate::base64_text::base64_text;
use crate::checksum::{big_endian, crc32c_of};
use crate::decimal::{decimal, parsed_decimal};
use crate::percent::{lossy_text, percent_encoded};
use crate::storage::errors::StorageError;
use crate::storage::multipart::{
    assembled, boundary_in, boundary_of, content_type_in, framed, parts_in, parts_of, section_of,
    FrameView, PartView, SectionView, UploadMetadata,
};
use crate::storage::objects::{
    has_prefix, listed, matching, project_of_bucket, told, ListQuery, MetadataView, ObjectView,
    ObjectsView, UploadView,
};
use crate::storage::sessions::{
    commands_of, firebase_route, firebase_start_step, firebase_step, gcs_chunk_step, gcs_route,
    gcs_start_step, FirebaseUploadRoute, GcsAnswerView, GcsChunk, GcsUploadRoute,
    ResumableAnswerView, StartUpload,
};
use crate::storage::state::{
    delete_object_step, found_object, upload_step, without_bucket, FoundView, SessionView,
    StorageView,
};
use crate::text::{
    cut, cut_reads_back, first_piece, lacks, lines_of, one_char_lacks, only_piece, pieces,
};
use crate::text_map::listing;
use crate::trim::{
    is_space, lower_case, other_ends_stay, tight_text_stays, trimmed, without_leading,
    without_prefixes, without_suffixes, without_trailing,
};
use vstd::prelude::*;
use vstd::utf8::encode_utf8;

verus! {

/// A multipart upload whose metadata can be read and that is named, in the query or in the
/// metadata, holds the bytes of its media part, all custom metadata that it gives, and the content
/// type that the metadata gives, or else that of the media part. The query's name goes first.
pub proof fn multipart_upload_keeps_what_it_gives(
    metadata: Seq<u8>,
    media: PartView,
    query_name: Option<Seq<char>>,
    given: Option<UploadMetadata>,
    body: Seq<u8>,
)
    ensures
        ({
            let r = assembled(
                FrameView::Multipart { metadata, media },
                query_name,
                given,
                body,
            );
            let upload = r->Ok_0;
            let m = given->0;
            &&& given is None ==> r == Err::<UploadView, _>(StorageError::InvalidMultipartUpload)
            &&& given is Some && query_name is None && m.name is None ==> r == Err::<
                UploadView,
                _,
            >(StorageError::MissingObjectName)
            &&& given is Some && (query_name is Some || m.name is Some) ==> {
                &&& r is Ok
                &&& upload.data == media.body
                &&& upload.metadata == m.metadata.deep_view()
                &&& query_name is Some ==> upload.name == query_name->0
                &&& query_name is None ==> upload.name == m.name->0@
                &&& m.content_type is Some ==> upload.content_type == m.content_type->0@
                &&& m.content_type is None && media.content_type is Some ==> upload.content_type
                    == media.content_type->0
                &&& m.content_type is None && media.content_type is None ==> upload.content_type
                    == "application/octet-stream"@
            }
        }),
{
}

/// A plain upload that the query names holds the whole body, under the content type of the request
/// and without custom metadata.
pub proof fn plain_upload_is_its_body(
    content_type: Seq<char>,
    query_name: Option<Seq<char>>,
    given: Option<UploadMetadata>,
    body: Seq<u8>,
)
    ensures
        ({
            let r = assembled(FrameView::Plain { content_type }, query_name, given, body);
            &&& query_name is None ==> r == Err::<UploadView, _>(StorageError::MissingObjectName)
            &&& query_name is Some ==> {
                &&& r is Ok
                &&& r->Ok_0.name == query_name->0
                &&& r->Ok_0.content_type == content_type
                &&& r->Ok_0.data == body
                &&& r->Ok_0.metadata == Map::<Seq<char>, Seq<char>>::empty()
            }
        }),
{
}

/// A body is taken as parts where its content type starts with `multipart/`, and as it is
/// everywhere else; without a content type it is a row of bytes.
pub proof fn content_type_decides_frame(content_type: Option<Seq<char>>, body: Seq<u8>)
    ensures
        ({
            let r = framed(content_type, body);
            let parts = parts_of(lossy_text(body), boundary_of(content_type->0)->0);
            let multipart = content_type is Some && "multipart/"@.is_prefix_of(content_type->0);
            let whole = boundary_of(content_type->0) is Some && parts is Some && parts->0.len()
                >= 2;
            &&& content_type is None ==> r == Ok::<_, StorageError>(
                FrameView::Plain { content_type: "application/octet-stream"@ },
            )
            &&& content_type is Some && !multipart ==> r == Ok::<_, StorageError>(
                FrameView::Plain { content_type: content_type->0 },
            )
            &&& multipart && !whole ==> r == Err::<FrameView, _>(
                StorageError::InvalidMultipartUpload,
            )
            &&& multipart && whole ==> r == Ok::<_, StorageError>(
                FrameView::Multipart { metadata: parts->0[0].body, media: parts->0[1] },
            )
        }),
{
    reveal_strlit("multipart/");
    reveal_strlit("application/octet-stream");
    if "multipart/"@.is_prefix_of("application/octet-stream"@) {
        assert("application/octet-stream"@.subrange(0, 10)[0] == "multipart/"@[0]);
        assert("multipart/"@[0] == 'm' && "application/octet-stream"@[0] == 'a');
    }
}

/// A part of a body, as it is written between two boundaries.
pub open spec fn written_part(headers: Seq<char>, body: Seq<char>) -> Seq<char> {
    "\r\n"@ + headers + "\r\n\r\n"@ + body + "\r\n"@
}

/// Whether headers can be told from the body behind them, and the body from the line end behind it.
pub open spec fn can_be_written(headers: Seq<char>, body: Seq<char>) -> bool {
    &&& headers.len() > 0
    &&& !"\r\n"@.is_prefix_of(headers)
    &&& !"--"@.is_prefix_of(headers)
    &&& lacks(headers + "\r\n\r\n"@.drop_last(), "\r\n\r\n"@)
    &&& body.len() > 0
    &&& !"\r\n"@.is_suffix_of(body)
}

#[verifier::rlimit(50)]
proof fn part_reads_back(headers: Seq<char>, body: Seq<char>)
    requires
        can_be_written(headers, body),
    ensures
        section_of(written_part(headers, body)) == SectionView::Part(
            PartView {
                content_type: content_type_in(lines_of(headers)),
                body: encode_utf8(body),
            },
        ),
{
    reveal_strlit("\r\n");
    reveal_strlit("\r\n\r\n");
    reveal_strlit("--");
    let crlf = "\r\n"@;
    let gap = "\r\n\r\n"@;
    let text = written_part(headers, body);
    let section = headers + gap + body + crlf;
    let inner = headers + gap + body;
    assert(text.subrange(0, 2) =~= crlf);
    assert(text.skip(2) =~= section);
    assert(!crlf.is_prefix_of(section)) by {
        if crlf.is_prefix_of(section) {
            assert(section.subrange(0, 2) == crlf);
            if headers.len() >= 2 {
                assert(headers.subrange(0, 2) =~= section.subrange(0, 2));
            } else {
                assert(section.subrange(0, 2)[1] == section[1]);
                assert(section[1] == gap[0]);
                assert(gap[0] == '\r' && crlf[1] == '\n');
            }
        }
    }
    reveal_with_fuel(without_prefixes, 3);
    assert(without_prefixes(text, crlf) == section);
    assert(!"--"@.is_prefix_of(section)) by {
        if "--"@.is_prefix_of(section) {
            assert(section.subrange(0, 2) == "--"@);
            if headers.len() >= 2 {
                assert(headers.subrange(0, 2) =~= section.subrange(0, 2));
            } else {
                assert(section.subrange(0, 2)[1] == section[1]);
                assert(section[1] == gap[0]);
                assert(gap[0] == '\r' && "--"@[1] == '-');
            }
        }
    }
    let n = section.len() as int;
    assert(section.subrange(n - 2, n) =~= crlf);
    assert(section.take(n - 2) =~= inner);
    let m = inner.len() as int;
    assert(!crlf.is_suffix_of(inner)) by {
        if crlf.is_suffix_of(inner) {
            assert(inner.subrange(m - 2, m) == crlf);
            if body.len() >= 2 {
                assert(body.subrange(body.len() - 2, body.len() as int) =~= inner.subrange(
                    m - 2,
                    m,
                ));
            } else {
                assert(inner.subrange(m - 2, m)[0] == inner[m - 2]);
                assert(inner[m - 2] == gap[3]);
                assert(gap[3] == '\n' && crlf[0] == '\r');
            }
        }
    }
    reveal_with_fuel(without_suffixes, 3);
    assert(without_suffixes(section, crlf) == inner);
    cut_reads_back(headers, gap, body);
}

/// Two parts that were written between boundaries are read as they were written: the content type
/// from the headers of each, and its body.
#[verifier::rlimit(50)]
pub proof fn written_parts_read_back(
    boundary: Seq<char>,
    headers: Seq<char>,
    body: Seq<char>,
    media_headers: Seq<char>,
    media: Seq<char>,
)
    requires
        can_be_written(headers, body),
        can_be_written(media_headers, media),
        lacks(written_part(headers, body) + ("--"@ + boundary).drop_last(), "--"@ + boundary),
        lacks(
            written_part(media_headers, media) + ("--"@ + boundary).drop_last(),
            "--"@ + boundary,
        ),
        lacks("--\r\n"@, "--"@ + boundary),
    ensures
        ({
            let mark = "--"@ + boundary;
            parts_of(
                mark + written_part(headers, body) + mark + written_part(media_headers, media)
                    + mark + "--\r\n"@,
                boundary,
            ) == Some(
                seq![
                    PartView {
                        content_type: content_type_in(lines_of(headers)),
                        body: encode_utf8(body),
                    },
                    PartView {
                        content_type: content_type_in(lines_of(media_headers)),
                        body: encode_utf8(media),
                    },
                ],
            )
        }),
{
    reveal_strlit("--");
    reveal_strlit("\r\n");
    reveal_strlit("--\r\n");
    let mark = "--"@ + boundary;
    let first = written_part(headers, body);
    let second = written_part(media_headers, media);
    let end = "--\r\n"@;
    let text = mark + first + mark + second + mark + end;
    let none: Seq<char> = Seq::empty();
    assert(text =~= none + mark + (first + mark + (second + mark + end)));
    assert(none + mark.drop_last() =~= mark.drop_last());
    assert(lacks(none + mark.drop_last(), mark));
    first_piece(none, mark, first + mark + (second + mark + end));
    first_piece(first, mark, second + mark + end);
    first_piece(second, mark, end);
    only_piece(end, mark);
    let sections = pieces(text, mark).skip(1);
    assert(sections =~= seq![first, second, end]);
    part_reads_back(headers, body);
    part_reads_back(media_headers, media);
    assert(!"\r\n"@.is_prefix_of(end)) by {
        if "\r\n"@.is_prefix_of(end) {
            assert(end.subrange(0, 2)[0] == end[0]);
            assert(end[0] == '-' && "\r\n"@[0] == '\r');
        }
    }
    assert(without_prefixes(end, "\r\n"@) == end);
    assert(end.subrange(0, 2) =~= "--"@);
    assert(section_of(end) == SectionView::Skipped);
    let two = sections.drop_last();
    assert(two =~= seq![first, second]);
    let one = two.drop_last();
    assert(one =~= seq![first]);
    assert(one.drop_last() =~= Seq::<Seq<char>>::empty());
    reveal_with_fuel(parts_in, 4);
    assert(one.last() == first && two.last() == second && sections.last() == end);
    let a = PartView {
        content_type: content_type_in(lines_of(headers)),
        body: encode_utf8(body),
    };
    let b = PartView {
        content_type: content_type_in(lines_of(media_headers)),
        body: encode_utf8(media),
    };
    assert(parts_in(one) == Some(Seq::<PartView>::empty().push(a)));
    assert(parts_in(two) == Some(Seq::<PartView>::empty().push(a).push(b)));
    assert(Seq::<PartView>::empty().push(a).push(b) =~= seq![a, b]);
}

/// The content type of a part is in the first header of that name, however the name is written,
/// and is read without the space around it.
pub proof fn content_type_is_in_its_header(headers: Seq<Seq<char>>, i: int)
    requires
        0 <= i < headers.len(),
        cut(headers[i], ":"@) is Some,
        lower_case((cut(headers[i], ":"@)->0).0) == "content-type"@,
        forall|j: int|
            0 <= j < i && cut(#[trigger] headers[j], ":"@) is Some ==> lower_case(
                (cut(headers[j], ":"@)->0).0,
            ) != "content-type"@,
    ensures
        content_type_in(headers) == Some(trimmed((cut(headers[i], ":"@)->0).1)),
    decreases i,
{
    if i > 0 {
        let rest = headers.drop_first();
        assert forall|j: int| 0 <= j < i - 1 && cut(#[trigger] rest[j], ":"@) is Some implies
            lower_case((cut(rest[j], ":"@)->0).0) != "content-type"@ by {
            assert(rest[j] == headers[j + 1]);
        }
        assert(rest[i - 1] == headers[i]);
        content_type_is_in_its_header(rest, i - 1);
        assert(cut(headers[0], ":"@) is Some ==> lower_case((cut(headers[0], ":"@)->0).0)
            != "content-type"@);
    }
}

/// A part without such a header has no content type.
pub proof fn no_header_no_content_type(headers: Seq<Seq<char>>)
    requires
        forall|j: int|
            0 <= j < headers.len() && cut(#[trigger] headers[j], ":"@) is Some ==> lower_case(
                (cut(headers[j], ":"@)->0).0,
            ) != "content-type"@,
    ensures
        content_type_in(headers) is None,
    decreases headers.len(),
{
    if headers.len() > 0 {
        let rest = headers.drop_first();
        assert forall|j: int| 0 <= j < rest.len() && cut(#[trigger] rest[j], ":"@) is Some implies
            lower_case((cut(rest[j], ":"@)->0).0) != "content-type"@ by {
            assert(rest[j] == headers[j + 1]);
        }
        no_header_no_content_type(rest);
        assert(cut(headers[0], ":"@) is Some ==> lower_case((cut(headers[0], ":"@)->0).0)
            != "content-type"@);
    }
}

/// What is told of an upload is what was uploaded: its name, its bucket, its content type, its
/// custom metadata, and the length and the checksum of its bytes. It is stored with the next
/// generation, at that time; an upload without a name is refused, and changes nothing.
pub proof fn upload_is_told(
    v: StorageView,
    project_id: Seq<char>,
    bucket: Seq<char>,
    upload: UploadView,
    now_ms: u64,
)
    requires
        v.objects(project_id, bucket).contains_key(upload.name) ==> v.objects(
            project_id,
            bucket,
        )[upload.name].generation < u64::MAX,
    ensures
        ({
            let before = v.objects(project_id, bucket);
            let (w, r) = upload_step(v, project_id, bucket, upload, now_ms);
            let after = w.objects(project_id, bucket);
            let object = after[upload.name];
            let told_of = r->Ok_0;
            &&& upload.name.len() == 0 ==> w == v && r == Err::<MetadataView, _>(
                StorageError::MissingObjectName,
            )
            &&& upload.name.len() > 0 ==> {
                &&& r is Ok
                &&& after == before.insert(upload.name, object)
                &&& object.name == upload.name
                &&& object.content_type == upload.content_type
                &&& object.metadata == upload.metadata
                &&& object.data == upload.data
                &&& object.updated_at_ms == now_ms
                &&& before.contains_key(upload.name) ==> object.generation
                    == before[upload.name].generation + 1 && object.created_at_ms
                    == before[upload.name].created_at_ms
                &&& !before.contains_key(upload.name) ==> object.generation == 1
                    && object.created_at_ms == now_ms
                &&& is_told(told_of, bucket, object)
            }
        }),
{
}

/// Whether what is told is told of an object.
pub open spec fn is_told(m: MetadataView, bucket: Seq<char>, object: ObjectView) -> bool {
    &&& m.kind == "storage#object"@
    &&& m.bucket == bucket
    &&& m.name == object.name
    &&& m.id == bucket + "/"@ + object.name + "/"@ + decimal(object.generation as nat)
    &&& m.generation == decimal(object.generation as nat)
    &&& m.metageneration == "1"@
    &&& m.size == decimal(object.data.len())
    &&& m.content_type == object.content_type
    &&& m.metadata == object.metadata
    &&& m.crc32c == base64_text(big_endian(crc32c_of(object.data)), false)
    &&& m.time_created == decimal(object.created_at_ms as nat)
    &&& m.updated == decimal(object.updated_at_ms as nat)
}

/// A list shows what is told of the objects whose names start with the prefix, and of all objects
/// where none is given: in their order, the first thousand, or as many as are asked for.
pub proof fn list_shows_objects_with_prefix(
    bucket: Seq<char>,
    objects: ObjectsView,
    query: ListQuery,
)
    ensures
        ({
            let fits = listing(objects).filter(
                |pair: (Seq<char>, ObjectView)|
                    query.prefix is Some ==> query.prefix->0@.is_prefix_of(pair.1.name),
            );
            let max: int = if query.max_results is Some {
                query.max_results->0 as int
            } else {
                1000
            };
            let shown = listed(bucket, objects, query);
            &&& fits.len() <= max ==> shown.len() == fits.len()
            &&& fits.len() > max ==> shown.len() == max
            &&& forall|i: int|
                0 <= i < shown.len() ==> is_told(#[trigger] shown[i], bucket, fits[i].1)
        }),
{
    matching_is_filtered(bucket, listing(objects), query);
}

proof fn matching_is_filtered(
    bucket: Seq<char>,
    pairs: Seq<(Seq<char>, ObjectView)>,
    query: ListQuery,
)
    ensures
        matching(bucket, pairs, query.prefix.deep_view()) == pairs.filter(
            |pair: (Seq<char>, ObjectView)|
                query.prefix is Some ==> query.prefix->0@.is_prefix_of(pair.1.name),
        ).map_values(|pair: (Seq<char>, ObjectView)| told(bucket, pair.1)),
    decreases pairs.len(),
{
    reveal(Seq::filter);
    let fits = |pair: (Seq<char>, ObjectView)|
        query.prefix is Some ==> query.prefix->0@.is_prefix_of(pair.1.name);
    let tell = |pair: (Seq<char>, ObjectView)| told(bucket, pair.1);
    let shown = pairs.filter(fits).map_values(tell);
    if pairs.len() > 0 {
        let head = pairs.drop_last();
        matching_is_filtered(bucket, head, query);
        assert(fits(pairs.last()) == has_prefix(pairs.last().1.name, query.prefix.deep_view()));
        if fits(pairs.last()) {
            assert(shown =~= head.filter(fits).map_values(tell).push(told(bucket, pairs.last().1)));
        } else {
            assert(shown =~= head.filter(fits).map_values(tell));
        }
    } else {
        assert(shown =~= Seq::empty());
    }
}

/// An object that there is can be deleted, and is gone then; all others stay. A bucket that is
/// emptied holds nothing, and all other buckets stay.
pub proof fn deletion_takes_what_it_names(
    v: StorageView,
    project_id: Seq<char>,
    bucket: Seq<char>,
    name: Seq<char>,
    other_project: Seq<char>,
    other_bucket: Seq<char>,
)
    ensures
        ({
            let (w, r) = delete_object_step(v, project_id, bucket, name);
            let x = without_bucket(v, project_id, bucket);
            let elsewhere = other_project != project_id || other_bucket != bucket;
            &&& r is Ok <==> v.objects(project_id, bucket).contains_key(name)
            &&& r is Err ==> w == v && r == Err::<(), _>(StorageError::ObjectNotFound)
            &&& r is Ok ==> w.objects(project_id, bucket) == v.objects(project_id, bucket).remove(
                name,
            )
            &&& elsewhere ==> w.objects(other_project, other_bucket) == v.objects(
                other_project,
                other_bucket,
            )
            &&& w.uploads == v.uploads
            &&& x.objects(project_id, bucket) == Map::<Seq<char>, ObjectView>::empty()
            &&& elsewhere ==> x.objects(other_project, other_bucket) == v.objects(
                other_project,
                other_bucket,
            )
            &&& x.uploads == v.uploads
        }),
{
}

/// The project of a bucket is what its name starts with, where it ends like those of a project.
pub proof fn bucket_names_its_project(project_id: Seq<char>, bucket: Seq<char>)
    ensures
        project_of_bucket(project_id + ".appspot.com"@) == project_id,
        project_of_bucket(project_id + ".firebasestorage.app"@) == project_id,
        !".appspot.com"@.is_suffix_of(bucket) && !".firebasestorage.app"@.is_suffix_of(bucket)
            ==> project_of_bucket(bucket) == "demo-firelite"@,
{
    reveal_strlit(".appspot.com");
    reveal_strlit(".firebasestorage.app");
    let a = project_id + ".appspot.com"@;
    assert(a.subrange(a.len() - 12, a.len() as int) =~= ".appspot.com"@);
    assert(a.take(a.len() - 12) =~= project_id);
    let b = project_id + ".firebasestorage.app"@;
    assert(b.subrange(b.len() - 20, b.len() as int) =~= ".firebasestorage.app"@);
    assert(b.take(b.len() - 20) =~= project_id);
    assert(b.last() == 'p' && ".appspot.com"@.last() == 'm');
    if ".appspot.com"@.is_suffix_of(b) {
        assert(b.subrange(b.len() - 12, b.len() as int).last() == b.last());
    }
}

/// Whether what an upload in steps was started with is kept for it.
pub open spec fn keeps_start(session: SessionView, bucket: Seq<char>, start: StartUpload) -> bool {
    let given = start.has_body && start.metadata is Some;
    let m = start.metadata->0;
    &&& session.project_id == project_of_bucket(bucket)
    &&& session.bucket == bucket
    &&& start.query_name is Some ==> session.name == start.query_name->0@
    &&& start.query_name is None ==> given && m.name is Some && session.name == m.name->0@
    &&& start.content_type is Some ==> session.content_type == start.content_type->0@
    &&& start.content_type is None && given && m.content_type is Some ==> session.content_type
        == m.content_type->0@
    &&& start.content_type is None && !(given && m.content_type is Some) ==> session.content_type
        == "application/octet-stream"@
    &&& given ==> session.metadata == m.metadata.deep_view()
    &&& !given ==> session.metadata == Map::<Seq<char>, Seq<char>>::empty()
    &&& session.data.len() == 0
    &&& session.received == 0
    &&& !session.finalized
}

/// An upload in steps that is named can be started, and keeps what it was started with. A length
/// that is given counts for uploads of the clients, where it must be a number; metadata that cannot
/// be read is refused.
#[verifier::rlimit(50)]
pub proof fn started_upload_keeps_what_it_gives(
    v: StorageView,
    base: Seq<char>,
    bucket: Seq<char>,
    start: StartUpload,
    upload_id: Seq<char>,
)
    ensures
        ({
            let (w, r) = firebase_start_step(v, base, bucket, start, upload_id);
            let (x, g) = gcs_start_step(v, base, bucket, start, upload_id);
            let unread = start.has_body && start.metadata is None;
            let named = start.query_name is Some || (start.has_body && start.metadata is Some
                && start.metadata->0.name is Some);
            let length = parsed_decimal(start.length->0@, usize::MAX as nat);
            &&& unread ==> r == Err::<Seq<char>, _>(StorageError::InvalidResumableMetadata) && g
                == Err::<Seq<char>, _>(StorageError::InvalidResumableMetadata)
            &&& !unread && !named ==> r == Err::<Seq<char>, _>(StorageError::MissingObjectName) && g
                == Err::<Seq<char>, _>(StorageError::MissingObjectName)
            &&& !unread && named && start.length is Some && length is None ==> r == Err::<
                Seq<char>,
                _,
            >(StorageError::InvalidUploadLength)
            &&& r is Err ==> w == v
            &&& g is Err ==> x == v
            &&& !unread && named && (start.length is None || length is Some) ==> {
                &&& r == Ok::<_, StorageError>(
                    base + "/v0/b/"@ + percent_encoded(bucket) + "/o?upload_id="@ + percent_encoded(
                        upload_id,
                    ),
                )
                &&& w.projects == v.projects
                &&& w.uploads == v.uploads.insert(upload_id, w.uploads[upload_id])
                &&& keeps_start(w.uploads[upload_id], bucket, start)
                &&& start.length is None ==> w.uploads[upload_id].expected_length is None
                &&& start.length is Some ==> w.uploads[upload_id].expected_length is Some
                    && w.uploads[upload_id].expected_length->0 == length->0
            }
            &&& !unread && named ==> {
                &&& g == Ok::<_, StorageError>(
                    base + "/upload/storage/v1/b/"@ + percent_encoded(bucket)
                        + "/o?uploadType=resumable&upload_id="@ + percent_encoded(upload_id),
                )
                &&& x.projects == v.projects
                &&& x.uploads == v.uploads.insert(upload_id, x.uploads[upload_id])
                &&& keeps_start(x.uploads[upload_id], bucket, start)
                &&& x.uploads[upload_id].expected_length is None
            }
        }),
{
}

/// Whether an upload is under way in the bucket.
pub open spec fn under_way(v: StorageView, bucket: Seq<char>, upload_id: Seq<char>) -> bool {
    v.uploads.contains_key(upload_id) && v.uploads[upload_id].bucket == bucket
}

/// Whoever asks how far an upload is gets that told, and nothing changes.
pub proof fn status_is_told(
    v: StorageView,
    bucket: Seq<char>,
    upload_id: Seq<char>,
    command: Seq<char>,
    offset: Option<Seq<char>>,
    body: Seq<u8>,
    now_ms: u64,
)
    requires
        commands_of(command).contains("query"@),
    ensures
        ({
            let (w, r) = firebase_step(v, bucket, upload_id, Some(command), offset, body, now_ms);
            &&& w == v
            &&& under_way(v, bucket, upload_id) ==> r == Ok::<_, StorageError>(
                ResumableAnswerView::Status {
                    finalized: v.uploads[upload_id].finalized,
                    received: v.uploads[upload_id].received,
                },
            )
            &&& !under_way(v, bucket, upload_id) ==> r == Err::<ResumableAnswerView, _>(
                StorageError::UploadSessionNotFound,
            )
        }),
{
}

/// A step of an upload brings its bytes behind those that are there, or completes the upload with
/// all of them, or both. It has to start where the upload is, to bring no more than is expected,
/// and to complete the upload with as much as is expected.
#[verifier::rlimit(50)]
pub proof fn step_brings_its_bytes(
    v: StorageView,
    bucket: Seq<char>,
    upload_id: Seq<char>,
    command: Option<Seq<char>>,
    offset: Option<Seq<char>>,
    body: Seq<u8>,
    now_ms: u64,
)
    requires
        command is Some ==> !commands_of(command->0).contains("query"@),
    ensures
        ({
            let (w, r) = firebase_step(v, bucket, upload_id, command, offset, body, now_ms);
            let brings = command is Some && commands_of(command->0).contains("upload"@);
            let ends = command is Some && commands_of(command->0).contains("finalize"@);
            let here = under_way(v, bucket, upload_id);
            let session = v.uploads[upload_id];
            let at = parsed_decimal(offset->0, usize::MAX as nat);
            let placed = offset is Some && at == Some(session.received as nat);
            let open = here && !session.finalized && placed;
            let count: int = if brings {
                session.received + body.len()
            } else {
                session.received as int
            };
            let bytes = if brings {
                session.data + body
            } else {
                session.data
            };
            let fits = !brings || (count <= usize::MAX && (session.expected_length is Some ==> count
                <= session.expected_length->0));
            let whole = session.expected_length is None || session.expected_length->0 == count;
            let objects = w.objects(session.project_id, session.bucket);
            &&& command is None ==> r == Err::<ResumableAnswerView, _>(
                StorageError::MissingUploadCommand,
            )
            &&& command is Some && !brings && !ends ==> r == Err::<ResumableAnswerView, _>(
                StorageError::InvalidUploadCommand,
            )
            &&& (brings || ends) && !here ==> r == Err::<ResumableAnswerView, _>(
                StorageError::UploadSessionNotFound,
            )
            &&& (brings || ends) && here && session.finalized ==> r == Err::<
                ResumableAnswerView,
                _,
            >(StorageError::UploadAlreadyFinalized)
            &&& (brings || ends) && here && !session.finalized && offset is None ==> r == Err::<
                ResumableAnswerView,
                _,
            >(StorageError::MissingUploadOffset)
            &&& (brings || ends) && here && !session.finalized && offset is Some && !placed ==> r
                == Err::<ResumableAnswerView, _>(StorageError::InvalidUploadOffset)
            &&& (brings || ends) && open && !fits ==> w == v && r == Err::<ResumableAnswerView, _>(
                StorageError::InvalidUploadLength,
            )
            &&& brings && !ends && open && fits ==> {
                &&& r == Ok::<_, StorageError>(ResumableAnswerView::Active)
                &&& w.projects == v.projects
                &&& w.uploads == v.uploads.insert(upload_id, w.uploads[upload_id])
                &&& w.uploads[upload_id].data == bytes
                &&& w.uploads[upload_id].received == count
                &&& w.uploads[upload_id] == (SessionView {
                    data: bytes,
                    received: w.uploads[upload_id].received,
                    ..session
                })
            }
            &&& ends && open && fits && !whole ==> r == Err::<ResumableAnswerView, _>(
                StorageError::InvalidUploadLength,
            )
            &&& ends && open && fits && whole && session.name.len() > 0 ==> {
                let object = objects[session.name];
                &&& r is Ok
                &&& r->Ok_0 is Final
                &&& objects == v.objects(session.project_id, session.bucket).insert(
                    session.name,
                    object,
                )
                &&& object.name == session.name
                &&& object.data == bytes
                &&& object.content_type == session.content_type
                &&& object.metadata == session.metadata
                &&& is_told(r->Ok_0->Final_0, session.bucket, object)
                &&& w.uploads.contains_key(upload_id)
                &&& w.uploads[upload_id].finalized
                &&& w.uploads[upload_id].received == count
            }
        }),
{
}

/// The chunk of an upload stores the object at once with the bytes of the chunk, under the name and
/// the metadata that the upload was started with, and ends the upload; one that only asks leaves it
/// as it is.
#[verifier::rlimit(50)]
pub proof fn chunk_stores_its_bytes(
    v: StorageView,
    bucket: Seq<char>,
    chunk: GcsChunk,
    now_ms: u64,
)
    ensures
        ({
            let (w, r) = gcs_chunk_step(v, bucket, chunk, now_ms);
            let resumable = chunk.upload_type is Some && chunk.upload_type->0@ == "resumable"@;
            let id = chunk.upload_id->0@;
            let session = v.uploads[id];
            let asks = chunk.body@.len() == 0 && chunk.content_range is Some
                && "bytes */"@.is_prefix_of(chunk.content_range->0@);
            let ready = resumable && chunk.upload_id is Some && under_way(v, bucket, id);
            let objects = w.objects(session.project_id, bucket);
            let object = objects[session.name];
            &&& !resumable ==> w == v && r == Err::<GcsAnswerView, _>(
                StorageError::UnsupportedUploadType,
            )
            &&& resumable && chunk.upload_id is None ==> w == v && r == Err::<GcsAnswerView, _>(
                StorageError::MissingUploadId,
            )
            &&& resumable && chunk.upload_id is Some && !under_way(v, bucket, id) ==> w.projects
                == v.projects && r == Err::<GcsAnswerView, _>(StorageError::UploadSessionNotFound)
            &&& ready && asks ==> w == v && r == Ok::<_, StorageError>(GcsAnswerView::Incomplete)
            &&& ready && !asks && session.name.len() > 0 ==> {
                &&& r is Ok
                &&& r->Ok_0 is Stored
                &&& is_told(r->Ok_0->Stored_0, bucket, object)
                &&& objects == v.objects(session.project_id, bucket).insert(session.name, object)
                &&& object.name == session.name
                &&& object.data == chunk.body@
                &&& object.metadata == session.metadata
                &&& chunk.content_type is Some && chunk.content_type->0@.len() > 0
                    ==> object.content_type == chunk.content_type->0@
                &&& chunk.content_type is None || chunk.content_type->0@.len() == 0
                    ==> object.content_type == session.content_type
                &&& w.uploads == v.uploads.remove(id)
            }
        }),
{
}

/// The boundary of a body stands in its content type, with or without quotes.
#[verifier::rlimit(50)]
pub proof fn boundary_reads_back(kind: Seq<char>, boundary: Seq<char>)
    requires
        !kind.contains(';'),
        !"boundary="@.is_prefix_of(trimmed(kind)),
        boundary.len() > 0,
        !boundary.contains(';'),
        boundary[0] != '"',
        boundary.last() != '"',
        !is_space(boundary.last()),
    ensures
        boundary_of(kind + ";"@ + " boundary="@ + boundary) == Some(boundary),
        boundary_of(kind + ";"@ + " boundary="@ + "\""@ + boundary + "\""@) == Some(boundary),
{
    reveal_strlit(";");
    reveal_strlit(" ");
    reveal_strlit("\"");
    reveal_strlit("boundary=");
    reveal_strlit(" boundary=");
    assert(";"@ =~= seq![';']);
    one_char_lacks(kind, ';');
    assert(" boundary="@ =~= " "@ + "boundary="@);
    let plain = "boundary="@ + boundary;
    let quoted = "boundary="@ + ("\""@ + boundary + "\""@);
    one_parameter(kind, plain);
    one_parameter(kind, quoted);
    assert(kind + ";"@ + " boundary="@ + boundary =~= kind + ";"@ + (" "@ + plain));
    assert(kind + ";"@ + " boundary="@ + "\""@ + boundary + "\""@ =~= kind + ";"@ + (" "@ + quoted));
    assert(plain.skip(9) =~= boundary);
    assert(plain.subrange(0, 9) =~= "boundary="@);
    let inner = "\""@ + boundary + "\""@;
    assert(quoted.skip(9) =~= inner);
    assert(quoted.subrange(0, 9) =~= "boundary="@);
    other_ends_stay(boundary, '"');
    reveal_with_fuel(without_leading, 2);
    reveal_with_fuel(without_trailing, 2);
    let rest = boundary + "\""@;
    assert(inner[0] == '"');
    assert(inner.drop_first() =~= rest);
    assert(rest[0] == boundary[0]);
    assert(without_leading(inner, '"') == rest);
    assert(rest.drop_last() =~= boundary);
    assert(rest.last() == '"');
}

proof fn one_parameter(kind: Seq<char>, parameter: Seq<char>)
    requires
        !kind.contains(';'),
        !"boundary="@.is_prefix_of(trimmed(kind)),
        parameter.len() > 0,
        !parameter.contains(';'),
        !is_space(parameter[0]),
        !is_space(parameter.last()),
        "boundary="@.is_prefix_of(parameter),
    ensures
        boundary_of(kind + ";"@ + (" "@ + parameter)) == Some(
            without_trailing(without_leading(parameter.skip(9), '"'), '"'),
        ),
{
    reveal_strlit(";");
    reveal_strlit(" ");
    reveal_strlit("boundary=");
    assert(";"@ =~= seq![';']);
    one_char_lacks(kind, ';');
    let p = " "@ + parameter;
    assert(!p.contains(';')) by {
        assert forall|i: int| 0 <= i < p.len() implies p[i] != ';' by {
            if i > 0 {
                assert(p[i] == parameter[i - 1]);
                assert(parameter.contains(parameter[i - 1]));
            }
        }
    }
    one_char_lacks(p, ';');
    first_piece(kind, ";"@, p);
    only_piece(p, ";"@);
    tight_text_stays(parameter);
    let all = pieces(kind + ";"@ + p, ";"@);
    assert(all =~= seq![kind, p]);
    assert(all.drop_first() =~= seq![p]);
    reveal_with_fuel(boundary_in, 3);
    assert(all[0] == kind && all.drop_first()[0] == p);
}

/// The commands of a step stand between commas, with or without space around them.
pub proof fn commands_stand_between_commas(first: Seq<char>, rest: Seq<char>)
    requires
        !first.contains(','),
    ensures
        commands_of(first + ","@ + rest) == seq![trimmed(first)] + commands_of(rest),
        commands_of(first) == seq![trimmed(first)],
{
    reveal_strlit(",");
    assert(","@ =~= seq![',']);
    one_char_lacks(first, ',');
    first_piece(first, ","@, rest);
    only_piece(first, ","@);
    assert(commands_of(first + ","@ + rest) =~= seq![trimmed(first)] + commands_of(rest));
    assert(commands_of(first) =~= seq![trimmed(first)]);
}

/// An upload is made in steps where it says so, and at once everywhere else; a type that is none is
/// refused.
pub proof fn upload_says_how_it_is_made(kind: Seq<char>, upload_id: Option<Seq<char>>)
    ensures
        gcs_route(None) == Ok::<_, StorageError>(GcsUploadRoute::Direct),
        gcs_route(Some("resumable"@)) == Ok::<_, StorageError>(GcsUploadRoute::Resumable),
        gcs_route(Some("media"@)) == Ok::<_, StorageError>(GcsUploadRoute::Direct),
        gcs_route(Some("multipart"@)) == Ok::<_, StorageError>(GcsUploadRoute::Direct),
        kind != "resumable"@ && kind != "media"@ && kind != "multipart"@ ==> gcs_route(Some(kind))
            == Err::<GcsUploadRoute, _>(StorageError::UnsupportedUploadType),
        firebase_route(Some("resumable"@), upload_id) == FirebaseUploadRoute::Start,
        kind != "resumable"@ && upload_id is Some ==> firebase_route(Some(kind), upload_id)
            == FirebaseUploadRoute::Step,
        kind != "resumable"@ && upload_id is None ==> firebase_route(Some(kind), upload_id)
            == FirebaseUploadRoute::Direct,
        upload_id is Some ==> firebase_route(None, upload_id) == FirebaseUploadRoute::Step,
        upload_id is None ==> firebase_route(None, upload_id) == FirebaseUploadRoute::Direct,
{
    reveal_strlit("resumable");
    reveal_strlit("media");
    reveal_strlit("multipart");
    assert("resumable"@[0] == 'r' && "media"@[0] == 'm' && "multipart"@[0] == 'm');
}

/// What was uploaded is given back: its bytes, its content type and its metadata to whoever asks for
/// the object, and what is told of it to everyone else. An object that was not uploaded is not
/// found.
pub proof fn uploaded_object_comes_back(
    v: StorageView,
    project_id: Seq<char>,
    bucket: Seq<char>,
    upload: UploadView,
    now_ms: u64,
    alt: Option<Seq<char>>,
)
    requires
        upload.name.len() > 0,
    ensures
        ({
            let w = upload_step(v, project_id, bucket, upload, now_ms).0;
            let media = found_object(w, project_id, bucket, upload.name, Some("media"@));
            let other = found_object(w, project_id, bucket, upload.name, alt);
            &&& media is Ok
            &&& media->Ok_0 is Media
            &&& media->Ok_0->Media_0.data == upload.data
            &&& media->Ok_0->Media_0.content_type == upload.content_type
            &&& media->Ok_0->Media_0.metadata == upload.metadata
            &&& alt != Some("media"@) ==> other is Ok && other->Ok_0 is Metadata
                && other->Ok_0->Metadata_0.name == upload.name
                && other->Ok_0->Metadata_0.content_type == upload.content_type
                && other->Ok_0->Metadata_0.metadata == upload.metadata
                && other->Ok_0->Metadata_0.size == decimal(upload.data.len())
            &&& !v.objects(project_id, bucket).contains_key(upload.name) ==> found_object(
                v,
                project_id,
                bucket,
                upload.name,
                alt,
            ) == Err::<FoundView, _>(StorageError::ObjectNotFound)
        }),
{
}

} // verus!
