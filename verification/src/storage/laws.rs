//! What holds of storage whatever is asked of it.

use crate::decimal::{decimal, decimal_round_trip};
use crate::storage::errors::StorageError;
use crate::storage::objects::{
    has_prefix, listed, matching, told, uploaded, ListQuery, MetadataView, ObjectView, ObjectsView,
    UploadView,
};
use crate::storage::sessions::{
    commands_of, completed_session, firebase_step, session_in, step_refusal, with_chunk,
    ResumableAnswerView,
};
use crate::storage::state::{upload_step, SessionView, StorageView};
use crate::text_map::{can_list, listing};
use crate::text_order::text_lt;
use vstd::prelude::*;

verus! {

/// What was uploaded is there: the bytes, the content type and the metadata.
pub proof fn upload_is_found(
    v: StorageView,
    project_id: Seq<char>,
    bucket: Seq<char>,
    upload: UploadView,
    now_ms: u64,
)
    requires
        upload.name.len() > 0,
    ensures
        ({
            let (w, told_of) = upload_step(v, project_id, bucket, upload, now_ms);
            let objects = w.objects(project_id, bucket);
            &&& objects.contains_key(upload.name)
            &&& objects[upload.name].data == upload.data
            &&& objects[upload.name].content_type == upload.content_type
            &&& objects[upload.name].metadata == upload.metadata
            &&& told_of == Ok::<MetadataView, StorageError>(told(bucket, objects[upload.name]))
        }),
{
}

/// An upload over an object raises its generation by one and keeps the time it was made at; a
/// new object has the generation one.
pub proof fn upload_raises_generation(objects: ObjectsView, upload: UploadView, now_ms: u64)
    requires
        objects.contains_key(upload.name) ==> objects[upload.name].generation < u64::MAX,
    ensures
        objects.contains_key(upload.name) ==> uploaded(objects, upload, now_ms).generation
            == objects[upload.name].generation + 1 && uploaded(
            objects,
            upload,
            now_ms,
        ).created_at_ms == objects[upload.name].created_at_ms,
        !objects.contains_key(upload.name) ==> uploaded(objects, upload, now_ms).generation == 1
            && uploaded(objects, upload, now_ms).created_at_ms == now_ms,
{
}

/// An upload changes no other object, no other bucket, no other project and no upload that is
/// under way.
pub proof fn upload_changes_one_object(
    v: StorageView,
    project_id: Seq<char>,
    bucket: Seq<char>,
    upload: UploadView,
    now_ms: u64,
    other_project: Seq<char>,
    other_bucket: Seq<char>,
    other: Seq<char>,
)
    requires
        other_project != project_id || other_bucket != bucket || other != upload.name,
    ensures
        ({
            let w = upload_step(v, project_id, bucket, upload, now_ms).0;
            let before = v.objects(other_project, other_bucket);
            let after = w.objects(other_project, other_bucket);
            &&& w.uploads == v.uploads
            &&& after.contains_key(other) == before.contains_key(other)
            &&& before.contains_key(other) ==> after[other] == before[other]
        }),
{
}

/// An object that was deleted is gone, and no other object of any bucket with it.
pub proof fn deleted_is_gone(
    v: StorageView,
    project_id: Seq<char>,
    bucket: Seq<char>,
    name: Seq<char>,
    other_project: Seq<char>,
    other_bucket: Seq<char>,
    other: Seq<char>,
)
    ensures
        ({
            let w = v.with_objects(project_id, bucket, v.objects(project_id, bucket).remove(name));
            let before = v.objects(other_project, other_bucket);
            let after = w.objects(other_project, other_bucket);
            &&& !w.objects(project_id, bucket).contains_key(name)
            &&& other_project != project_id || other_bucket != bucket || other != name
                ==> after.contains_key(other) == before.contains_key(other) && (
            before.contains_key(other) ==> after[other] == before[other])
        }),
{
}

/// A list shows objects in the order of their names, each once, and only those that have the
/// prefix.
pub proof fn list_is_in_order(bucket: Seq<char>, objects: ObjectsView, query: ListQuery)
    requires
        can_list(objects),
        forall|name: Seq<char>| #[trigger]
            objects.contains_key(name) ==> objects[name].name == name,
    ensures
        forall|i: int, j: int|
            0 <= i < j < listed(bucket, objects, query).len() ==> text_lt(
                (#[trigger] listed(bucket, objects, query)[i]).name,
                (#[trigger] listed(bucket, objects, query)[j]).name,
            ),
        forall|i: int|
            0 <= i < listed(bucket, objects, query).len() ==> objects.contains_key(
                (#[trigger] listed(bucket, objects, query)[i]).name,
            ) && has_prefix(listed(bucket, objects, query)[i].name, query.prefix.deep_view())
                && listed(bucket, objects, query)[i] == told(
                bucket,
                objects[listed(bucket, objects, query)[i].name],
            ),
{
    let pairs = listing(objects);
    let prefix = query.prefix.deep_view();
    matching_in_order(bucket, pairs, prefix);
    let all = matching(bucket, pairs, prefix);
    let shown = listed(bucket, objects, query);
    assert forall|i: int| 0 <= i < shown.len() implies shown[i] == all[i] by {}
    assert forall|i: int| 0 <= i < shown.len() implies objects.contains_key(
        (#[trigger] shown[i]).name,
    ) && has_prefix(shown[i].name, prefix) && shown[i] == told(
        bucket,
        objects[shown[i].name],
    ) by {
        assert(all[i] == shown[i]);
        assert(comes_from(all[i], bucket, pairs, prefix));
        let k = choose|k: int|
            0 <= k < pairs.len() && all[i] == told(bucket, (#[trigger] pairs[k]).1) && has_prefix(
                pairs[k].1.name,
                prefix,
            );
        assert(objects.contains_key(pairs[k].0));
    }
    assert forall|i: int, j: int| 0 <= i < j < shown.len() implies text_lt(
        (#[trigger] shown[i]).name,
        (#[trigger] shown[j]).name,
    ) by {
        assert(all[i] == shown[i] && all[j] == shown[j]);
    }
}

/// A list that is shorter than it may be shows every object that has the prefix.
pub proof fn list_is_complete(
    bucket: Seq<char>,
    objects: ObjectsView,
    query: ListQuery,
    name: Seq<char>,
)
    requires
        can_list(objects),
        objects.contains_key(name),
        has_prefix(objects[name].name, query.prefix.deep_view()),
        listed(bucket, objects, query).len() < match query.max_results {
            Some(max) => max as nat,
            None => 1000,
        },
    ensures
        listed(bucket, objects, query).contains(told(bucket, objects[name])),
{
    let pairs = listing(objects);
    let prefix = query.prefix.deep_view();
    let at = choose|i: int| 0 <= i < pairs.len() && (#[trigger] pairs[i]).0 == name;
    matching_shows(bucket, pairs, prefix, at);
    assert(listed(bucket, objects, query) == matching(bucket, pairs, prefix));
}

proof fn matching_shows(
    bucket: Seq<char>,
    pairs: Seq<(Seq<char>, ObjectView)>,
    prefix: Option<Seq<char>>,
    at: int,
)
    requires
        0 <= at < pairs.len(),
        has_prefix(pairs[at].1.name, prefix),
    ensures
        matching(bucket, pairs, prefix).contains(told(bucket, pairs[at].1)),
    decreases pairs.len(),
{
    let head = pairs.drop_last();
    let before = matching(bucket, head, prefix);
    let all = matching(bucket, pairs, prefix);
    if at == pairs.len() - 1 {
        assert(all[before.len() as int] == told(bucket, pairs[at].1));
    } else {
        assert(head[at] == pairs[at]);
        matching_shows(bucket, head, prefix, at);
        let i = choose|i: int| 0 <= i < before.len() && before[i] == told(bucket, head[at].1);
        assert(all[i] == before[i]);
    }
}

spec fn comes_from(
    shown: MetadataView,
    bucket: Seq<char>,
    pairs: Seq<(Seq<char>, ObjectView)>,
    prefix: Option<Seq<char>>,
) -> bool {
    exists|k: int|
        0 <= k < pairs.len() && shown == told(bucket, (#[trigger] pairs[k]).1) && has_prefix(
            pairs[k].1.name,
            prefix,
        )
}

proof fn matching_in_order(
    bucket: Seq<char>,
    pairs: Seq<(Seq<char>, ObjectView)>,
    prefix: Option<Seq<char>>,
)
    requires
        forall|i: int, j: int|
            0 <= i < j < pairs.len() ==> text_lt(#[trigger] pairs[i].0, #[trigger] pairs[j].0),
        forall|i: int| 0 <= i < pairs.len() ==> (#[trigger] pairs[i]).1.name == pairs[i].0,
    ensures
        forall|i: int, j: int|
            0 <= i < j < matching(bucket, pairs, prefix).len() ==> text_lt(
                (#[trigger] matching(bucket, pairs, prefix)[i]).name,
                (#[trigger] matching(bucket, pairs, prefix)[j]).name,
            ),
        forall|i: int|
            0 <= i < matching(bucket, pairs, prefix).len() ==> comes_from(
                #[trigger] matching(bucket, pairs, prefix)[i],
                bucket,
                pairs,
                prefix,
            ),
    decreases pairs.len(),
{
    if pairs.len() > 0 {
        let head = pairs.drop_last();
        let last = pairs[pairs.len() - 1];
        assert forall|i: int, j: int| 0 <= i < j < head.len() implies text_lt(
            #[trigger] head[i].0,
            #[trigger] head[j].0,
        ) by {
            assert(head[i] == pairs[i] && head[j] == pairs[j]);
        }
        matching_in_order(bucket, head, prefix);
        let before = matching(bucket, head, prefix);
        let all = matching(bucket, pairs, prefix);
        assert forall|i: int| 0 <= i < all.len() implies comes_from(
            #[trigger] all[i],
            bucket,
            pairs,
            prefix,
        ) by {
            if i < before.len() {
                assert(all[i] == before[i]);
                assert(comes_from(before[i], bucket, head, prefix));
                let k = choose|k: int|
                    0 <= k < head.len() && before[i] == told(bucket, (#[trigger] head[k]).1)
                        && has_prefix(head[k].1.name, prefix);
                assert(pairs[k] == head[k]);
            } else {
                assert(pairs[pairs.len() - 1] == last);
                assert(all[i] == told(bucket, last.1) && has_prefix(last.1.name, prefix));
            }
        }
        assert forall|i: int, j: int| 0 <= i < j < all.len() implies text_lt(
            (#[trigger] all[i]).name,
            (#[trigger] all[j]).name,
        ) by {
            assert(all[i] == before[i]);
            if j < before.len() {
                assert(all[j] == before[j]);
            } else {
                assert(comes_from(before[i], bucket, head, prefix));
                let k = choose|k: int|
                    0 <= k < head.len() && before[i] == told(bucket, (#[trigger] head[k]).1)
                        && has_prefix(head[k].1.name, prefix);
                assert(head[k] == pairs[k]);
                assert(text_lt(pairs[k].0, last.0));
            }
        }
    }
}

/// A step of an upload that is refused changes nothing, unless it brings bytes and is to complete
/// the upload at once: then the bytes stay. Left out are uploads under an empty name, which are
/// over when they are refused.
pub proof fn refused_step_changes_nothing(
    v: StorageView,
    bucket: Seq<char>,
    upload_id: Seq<char>,
    command: Option<Seq<char>>,
    offset: Option<Seq<char>>,
    body: Seq<u8>,
    now_ms: u64,
)
    requires
        command is Some ==> !(commands_of(command->0).contains("upload"@) && commands_of(
            command->0,
        ).contains("finalize"@)),
        session_in(v, bucket, upload_id) is Some ==> session_in(v, bucket, upload_id)->0.name.len()
            > 0,
        firebase_step(v, bucket, upload_id, command, offset, body, now_ms).1 is Err,
    ensures
        firebase_step(v, bucket, upload_id, command, offset, body, now_ms).0 == v,
{
    if let Some(session) = session_in(v, bucket, upload_id) {
        assert(v.with_session(upload_id, session) =~= v);
    }
}

/// An upload after several steps of more bytes.
pub open spec fn fed(session: SessionView, chunks: Seq<Seq<u8>>) -> SessionView
    decreases chunks.len(),
{
    if chunks.len() == 0 {
        session
    } else {
        with_chunk(fed(session, chunks.drop_last()), chunks.last())
    }
}

/// The bytes of several chunks in a row.
pub open spec fn all_bytes(chunks: Seq<Seq<u8>>) -> Seq<u8>
    decreases chunks.len(),
{
    if chunks.len() == 0 {
        Seq::empty()
    } else {
        all_bytes(chunks.drop_last()) + chunks.last()
    }
}

/// An upload holds the bytes of its steps in their order, and what it has received is their
/// number.
pub proof fn fed_holds_all_bytes(session: SessionView, chunks: Seq<Seq<u8>>)
    requires
        session.received + all_bytes(chunks).len() <= usize::MAX,
    ensures
        fed(session, chunks).data == session.data + all_bytes(chunks),
        fed(session, chunks).received == session.received + all_bytes(chunks).len(),
        fed(session, chunks).name == session.name,
        fed(session, chunks).project_id == session.project_id,
        fed(session, chunks).bucket == session.bucket,
        fed(session, chunks).expected_length == session.expected_length,
    decreases chunks.len(),
{
    if chunks.len() == 0 {
        assert(session.data + Seq::<u8>::empty() =~= session.data);
    } else {
        fed_holds_all_bytes(session, chunks.drop_last());
        assert(session.data + (all_bytes(chunks.drop_last()) + chunks.last()) =~= (session.data
            + all_bytes(chunks.drop_last())) + chunks.last());
    }
}

/// Whether a command brings bytes and neither completes an upload nor asks how far it is.
pub open spec fn only_brings(command: Seq<char>) -> bool {
    &&& commands_of(command).contains("upload"@)
    &&& !commands_of(command).contains("query"@)
    &&& !commands_of(command).contains("finalize"@)
}

/// Whether a command brings bytes and completes an upload with them.
pub open spec fn brings_last(command: Seq<char>) -> bool {
    &&& commands_of(command).contains("upload"@)
    &&& !commands_of(command).contains("query"@)
    &&& commands_of(command).contains("finalize"@)
}

/// The storage after steps that bring chunks one after the other, each at its offset.
pub open spec fn after_chunks(
    v: StorageView,
    bucket: Seq<char>,
    upload_id: Seq<char>,
    command: Seq<char>,
    chunks: Seq<Seq<u8>>,
    now_ms: u64,
) -> StorageView
    decreases chunks.len(),
{
    if chunks.len() == 0 {
        v
    } else {
        let before = chunks.drop_last();
        firebase_step(
            after_chunks(v, bucket, upload_id, command, before, now_ms),
            bucket,
            upload_id,
            Some(command),
            Some(decimal(all_bytes(before).len())),
            chunks.last(),
            now_ms,
        ).0
    }
}

/// Steps that bring chunks one after the other leave an upload that holds them all.
pub proof fn chunks_are_gathered(
    v: StorageView,
    bucket: Seq<char>,
    upload_id: Seq<char>,
    session: SessionView,
    command: Seq<char>,
    chunks: Seq<Seq<u8>>,
    now_ms: u64,
)
    requires
        session_in(v, bucket, upload_id) == Some(session),
        !session.finalized,
        session.data.len() == 0,
        session.received == 0,
        only_brings(command),
        all_bytes(chunks).len() <= usize::MAX,
        session.expected_length is Some ==> all_bytes(chunks).len() <= session.expected_length->0,
    ensures
        after_chunks(v, bucket, upload_id, command, chunks, now_ms) == v.with_session(
            upload_id,
            fed(session, chunks),
        ),
        !fed(session, chunks).finalized,
    decreases chunks.len(),
{
    if chunks.len() == 0 {
        assert(v.with_session(upload_id, session) =~= v);
    } else {
        let before = chunks.drop_last();
        chunks_are_gathered(v, bucket, upload_id, session, command, before, now_ms);
        fed_holds_all_bytes(session, before);
        decimal_round_trip(all_bytes(before).len(), usize::MAX as nat);
        let w = after_chunks(v, bucket, upload_id, command, before, now_ms);
        assert(session_in(w, bucket, upload_id) == Some(fed(session, before)));
        assert(w.with_session(upload_id, fed(session, chunks)) =~= v.with_session(
            upload_id,
            fed(session, chunks),
        ));
    }
}

/// An upload in several steps stores the bytes of all of them in their order.
pub proof fn upload_in_steps_is_stored(
    v: StorageView,
    bucket: Seq<char>,
    upload_id: Seq<char>,
    session: SessionView,
    command: Seq<char>,
    chunks: Seq<Seq<u8>>,
    last_command: Seq<char>,
    last: Seq<u8>,
    now_ms: u64,
)
    requires
        session_in(v, bucket, upload_id) == Some(session),
        !session.finalized,
        session.data.len() == 0,
        session.received == 0,
        session.name.len() > 0,
        only_brings(command),
        brings_last(last_command),
        all_bytes(chunks).len() + last.len() <= usize::MAX,
        session.expected_length is Some ==> session.expected_length->0 == all_bytes(chunks).len()
            + last.len(),
    ensures
        ({
            let (w, answer) = firebase_step(
                after_chunks(v, bucket, upload_id, command, chunks, now_ms),
                bucket,
                upload_id,
                Some(last_command),
                Some(decimal(all_bytes(chunks).len())),
                last,
                now_ms,
            );
            let objects = w.objects(session.project_id, session.bucket);
            &&& answer is Ok
            &&& objects.contains_key(session.name)
            &&& objects[session.name].data == all_bytes(chunks) + last
            &&& answer == Ok::<_, StorageError>(
                ResumableAnswerView::Final(told(session.bucket, objects[session.name])),
            )
            &&& w.uploads[upload_id].finalized
            &&& w.uploads[upload_id].received == all_bytes(chunks).len() + last.len()
        }),
{
    chunks_are_gathered(v, bucket, upload_id, session, command, chunks, now_ms);
    fed_holds_all_bytes(session, chunks);
    decimal_round_trip(all_bytes(chunks).len(), usize::MAX as nat);
    let w = after_chunks(v, bucket, upload_id, command, chunks, now_ms);
    let so_far = fed(session, chunks);
    assert(session_in(w, bucket, upload_id) == Some(so_far));
    let whole = with_chunk(so_far, last);
    assert(session.data + all_bytes(chunks) =~= all_bytes(chunks));
    assert(whole.data == all_bytes(chunks) + last);
}

/// Whether an upload that goes on has received as many bytes as it holds, and no more than are
/// expected.
pub open spec fn session_sound(session: SessionView) -> bool {
    &&& !session.finalized ==> session.data.len() == session.received
    &&& session.expected_length is Some ==> session.received <= session.expected_length->0
}

/// Every step of an upload keeps every upload sound.
pub proof fn steps_keep_uploads_sound(
    v: StorageView,
    bucket: Seq<char>,
    upload_id: Seq<char>,
    command: Option<Seq<char>>,
    offset: Option<Seq<char>>,
    body: Seq<u8>,
    now_ms: u64,
)
    requires
        forall|id: Seq<char>| #[trigger] v.uploads.contains_key(id) ==> session_sound(v.uploads[id]),
    ensures
        ({
            let w = firebase_step(v, bucket, upload_id, command, offset, body, now_ms).0;
            forall|id: Seq<char>| #[trigger]
                w.uploads.contains_key(id) ==> session_sound(w.uploads[id])
        }),
{
}

/// An upload that was completed takes no further step.
pub proof fn completed_upload_is_closed(session: SessionView, offset: Option<Seq<char>>)
    ensures
        step_refusal(completed_session(session), offset) == Some(
            StorageError::UploadAlreadyFinalized,
        ),
{
}

} // verus!
