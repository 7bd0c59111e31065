//! Objects in buckets: how they are stored, read, listed and deleted.

use crate::base64_text::base64_text;
use crate::checksum::{big_endian, crc32c_base64, crc32c_of};
use crate::decimal::{decimal, decimal_text};
use crate::text::{join3, starts_with, strip_suffix, without_suffix};
use crate::text_map::{clone_texts, listing, TextMap};
use vstd::prelude::*;

verus! {

/// An object of a bucket.
#[derive(Debug)]
pub struct ObjectRecord {
    pub name: String,
    pub content_type: String,
    pub metadata: TextMap<String>,
    pub data: Vec<u8>,
    pub generation: u64,
    pub created_at_ms: u64,
    pub updated_at_ms: u64,
}

/// What an object holds.
#[verifier::ext_equal]
pub struct ObjectView {
    pub name: Seq<char>,
    pub content_type: Seq<char>,
    pub metadata: Map<Seq<char>, Seq<char>>,
    pub data: Seq<u8>,
    pub generation: u64,
    pub created_at_ms: u64,
    pub updated_at_ms: u64,
}

impl DeepView for ObjectRecord {
    type V = ObjectView;

    open spec fn deep_view(&self) -> ObjectView {
        ObjectView {
            name: self.name@,
            content_type: self.content_type@,
            metadata: self.metadata.deep_view(),
            data: self.data@,
            generation: self.generation,
            created_at_ms: self.created_at_ms,
            updated_at_ms: self.updated_at_ms,
        }
    }
}

/// What is told of an object.
#[derive(Debug)]
pub struct ObjectMetadata {
    pub kind: &'static str,
    pub bucket: String,
    pub name: String,
    pub id: String,
    pub generation: String,
    pub metageneration: String,
    pub size: String,
    pub content_type: String,
    pub metadata: TextMap<String>,
    pub crc32c: String,
    pub time_created: String,
    pub updated: String,
}

/// What is told of an object.
#[verifier::ext_equal]
pub struct MetadataView {
    pub kind: Seq<char>,
    pub bucket: Seq<char>,
    pub name: Seq<char>,
    pub id: Seq<char>,
    pub generation: Seq<char>,
    pub metageneration: Seq<char>,
    pub size: Seq<char>,
    pub content_type: Seq<char>,
    pub metadata: Map<Seq<char>, Seq<char>>,
    pub crc32c: Seq<char>,
    pub time_created: Seq<char>,
    pub updated: Seq<char>,
}

impl DeepView for ObjectMetadata {
    type V = MetadataView;

    open spec fn deep_view(&self) -> MetadataView {
        MetadataView {
            kind: self.kind@,
            bucket: self.bucket@,
            name: self.name@,
            id: self.id@,
            generation: self.generation@,
            metageneration: self.metageneration@,
            size: self.size@,
            content_type: self.content_type@,
            metadata: self.metadata.deep_view(),
            crc32c: self.crc32c@,
            time_created: self.time_created@,
            updated: self.updated@,
        }
    }
}

/// What is told of an object.
pub open spec fn told(bucket: Seq<char>, object: ObjectView) -> MetadataView {
    MetadataView {
        kind: "storage#object"@,
        bucket,
        name: object.name,
        id: bucket + "/"@ + object.name + "/"@ + decimal(object.generation as nat),
        generation: decimal(object.generation as nat),
        metageneration: "1"@,
        size: decimal(object.data.len()),
        content_type: object.content_type,
        metadata: object.metadata,
        crc32c: base64_text(big_endian(crc32c_of(object.data)), false),
        time_created: decimal(object.created_at_ms as nat),
        updated: decimal(object.updated_at_ms as nat),
    }
}

/// What is told of an object.
pub fn metadata(bucket: &str, object: &ObjectRecord) -> (r: ObjectMetadata)
    ensures
        r.deep_view() == told(bucket@, object.deep_view()),
{
    let generation = decimal_text(object.generation);
    let mut id = join3(bucket, "/", object.name.as_str());
    id.append("/");
    id.append(generation.as_str());
    ObjectMetadata {
        kind: "storage#object",
        bucket: bucket.to_owned(),
        name: object.name.clone(),
        id,
        generation,
        metageneration: "1".to_owned(),
        size: decimal_text(object.data.len() as u64),
        content_type: object.content_type.clone(),
        metadata: clone_texts(&object.metadata),
        crc32c: crc32c_base64(object.data.as_slice()),
        time_created: decimal_text(object.created_at_ms),
        updated: decimal_text(object.updated_at_ms),
    }
}

/// The objects of a bucket by name.
pub type Objects = TextMap<ObjectRecord>;

/// The objects of a bucket by name.
pub type ObjectsView = Map<Seq<char>, ObjectView>;

/// An object that is to be stored.
#[derive(Debug)]
pub struct ParsedUpload {
    pub name: String,
    pub content_type: String,
    pub metadata: TextMap<String>,
    pub data: Vec<u8>,
}

/// What an object that is to be stored holds.
#[verifier::ext_equal]
pub struct UploadView {
    pub name: Seq<char>,
    pub content_type: Seq<char>,
    pub metadata: Map<Seq<char>, Seq<char>>,
    pub data: Seq<u8>,
}

impl DeepView for ParsedUpload {
    type V = UploadView;

    open spec fn deep_view(&self) -> UploadView {
        UploadView {
            name: self.name@,
            content_type: self.content_type@,
            metadata: self.metadata.deep_view(),
            data: self.data@,
        }
    }
}

/// An object as an upload stores it. One that was there keeps the time it was made at, and its
/// generation goes up by one.
pub open spec fn uploaded(objects: ObjectsView, upload: UploadView, now_ms: u64) -> ObjectView {
    let known = objects.contains_key(upload.name);
    ObjectView {
        name: upload.name,
        content_type: upload.content_type,
        metadata: upload.metadata,
        data: upload.data,
        generation: if known {
            (objects[upload.name].generation + 1) as u64
        } else {
            1
        },
        created_at_ms: if known {
            objects[upload.name].created_at_ms
        } else {
            now_ms
        },
        updated_at_ms: now_ms,
    }
}

/// Whether an upload finds room for its generation.
pub open spec fn generation_fits(objects: ObjectsView, name: Seq<char>) -> bool {
    objects.contains_key(name) ==> objects[name].generation < u64::MAX
}

/// Stores an object in a bucket and tells of it.
pub fn store_object(objects: &mut Objects, bucket: &str, upload: ParsedUpload, now_ms: u64) -> (r:
    ObjectMetadata)
    requires
        generation_fits(old(objects).deep_view(), upload.name@),
    ensures
        ({
            let object = uploaded(old(objects).deep_view(), upload.deep_view(), now_ms);
            final(objects).deep_view() == old(objects).deep_view().insert(object.name, object)
                && r.deep_view() == told(bucket@, object)
        }),
{
    let (generation, created_at_ms) = match objects.get(upload.name.as_str()) {
        Some(object) => (object.generation + 1, object.created_at_ms),
        None => (1, now_ms),
    };
    let name = upload.name.clone();
    let record = ObjectRecord {
        name: upload.name,
        content_type: upload.content_type,
        metadata: upload.metadata,
        data: upload.data,
        generation,
        created_at_ms,
        updated_at_ms: now_ms,
    };
    let told_of = metadata(bucket, &record);
    objects.insert(name, record);
    told_of
}

/// The part of a bucket that a list shows.
#[derive(Debug)]
pub struct ListQuery {
    pub prefix: Option<String>,
    pub max_results: Option<usize>,
}

/// Whether a name has a prefix, where one is asked for.
pub open spec fn has_prefix(name: Seq<char>, prefix: Option<Seq<char>>) -> bool {
    match prefix {
        Some(prefix) => prefix.is_prefix_of(name),
        None => true,
    }
}

/// What is told of the objects that have the prefix, in the order of their names.
pub open spec fn matching(
    bucket: Seq<char>,
    pairs: Seq<(Seq<char>, ObjectView)>,
    prefix: Option<Seq<char>>,
) -> Seq<MetadataView>
    decreases pairs.len(),
{
    if pairs.len() == 0 {
        Seq::empty()
    } else {
        let before = matching(bucket, pairs.drop_last(), prefix);
        if has_prefix(pairs.last().1.name, prefix) {
            before.push(told(bucket, pairs.last().1))
        } else {
            before
        }
    }
}

/// The first `max` of a list.
pub open spec fn at_most(items: Seq<MetadataView>, max: nat) -> Seq<MetadataView> {
    if items.len() <= max {
        items
    } else {
        items.take(max as int)
    }
}

/// What a list of a bucket shows.
pub open spec fn listed(bucket: Seq<char>, objects: ObjectsView, query: ListQuery) -> Seq<
    MetadataView,
> {
    at_most(
        matching(bucket, listing(objects), query.prefix.deep_view()),
        match query.max_results {
            Some(max) => max as nat,
            None => 1000,
        },
    )
}

/// The objects of a bucket in the order of their names: those with the prefix that is asked for,
/// at most as many as are asked for, or a thousand.
pub fn list_bucket(objects: &Objects, bucket: &str, query: &ListQuery) -> (r: Vec<ObjectMetadata>)
    ensures
        r.deep_view() == listed(bucket@, objects.deep_view(), *query),
{
    let max: usize = match query.max_results {
        Some(max) => max,
        None => 1000,
    };
    let ghost pairs = listing(objects.deep_view());
    let ghost prefix = query.prefix.deep_view();
    let count: usize = objects.len();
    let mut r: Vec<ObjectMetadata> = Vec::new();
    let mut i: usize = 0;
    assert(pairs.take(0) =~= Seq::empty());
    assert(r.deep_view() =~= Seq::empty());
    while i < count
        invariant
            pairs == listing(objects.deep_view()),
            prefix == query.prefix.deep_view(),
            count == pairs.len(),
            i <= count,
            r.deep_view() == matching(bucket@, pairs.take(i as int), prefix),
        decreases count - i,
    {
        let object = objects.value_at(i);
        let ghost before = r.deep_view();
        assert(pairs.take(i + 1).drop_last() =~= pairs.take(i as int));
        assert(pairs.take(i + 1).last() == pairs[i as int]);
        let wanted = match &query.prefix {
            Some(prefix) => starts_with(object.name.as_str(), prefix.as_str()),
            None => true,
        };
        if wanted {
            r.push(metadata(bucket, object));
            assert(r.deep_view() =~= before.push(told(bucket@, object.deep_view())));
        }
        i += 1;
    }
    assert(pairs.take(count as int) =~= pairs);
    let ghost all = r.deep_view();
    assert(all.len() == r@.len());
    if r.len() > max {
        r.truncate(max);
        assert(r.deep_view() =~= all.take(max as int));
    }
    r
}

/// The project that a bucket belongs to, by the name of the bucket.
pub open spec fn project_of_bucket(bucket: Seq<char>) -> Seq<char> {
    match without_suffix(bucket, ".appspot.com"@) {
        Some(project_id) => project_id,
        None => match without_suffix(bucket, ".firebasestorage.app"@) {
            Some(project_id) => project_id,
            None => "demo-firelite"@,
        },
    }
}

/// The project that a bucket belongs to: what stands before the ending of the default buckets,
/// or the default project.
pub fn infer_project_id(bucket: &str) -> (r: String)
    ensures
        r@ == project_of_bucket(bucket@),
{
    match strip_suffix(bucket, ".appspot.com") {
        Some(project_id) => project_id.to_owned(),
        None => match strip_suffix(bucket, ".firebasestorage.app") {
            Some(project_id) => project_id.to_owned(),
            None => "demo-firelite".to_owned(),
        },
    }
}

} // verus!
