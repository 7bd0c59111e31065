//! The buckets of all projects, and the uploads in several steps that are under way.

use crate::storage::errors::{storage_outcome, StorageError};
use crate::storage::objects::{
    generation_fits, list_bucket, listed, metadata, store_object, told, uploaded, ListQuery,
    MetadataView, ObjectMetadata, ObjectRecord, ObjectView, Objects, ObjectsView, ParsedUpload,
    UploadView,
};
use crate::text::same_text;
use crate::text_map::TextMap;
use vstd::prelude::*;

verus! {

/// An upload in several steps.
#[derive(Debug)]
pub struct ResumableUploadSession {
    pub project_id: String,
    pub bucket: String,
    pub name: String,
    pub content_type: String,
    pub metadata: TextMap<String>,
    pub expected_length: Option<usize>,
    pub data: Vec<u8>,
    pub received: usize,
    pub finalized: bool,
}

/// What an upload in several steps holds.
#[verifier::ext_equal]
pub struct SessionView {
    pub project_id: Seq<char>,
    pub bucket: Seq<char>,
    pub name: Seq<char>,
    pub content_type: Seq<char>,
    pub metadata: Map<Seq<char>, Seq<char>>,
    pub expected_length: Option<usize>,
    pub data: Seq<u8>,
    pub received: usize,
    pub finalized: bool,
}

impl DeepView for ResumableUploadSession {
    type V = SessionView;

    open spec fn deep_view(&self) -> SessionView {
        SessionView {
            project_id: self.project_id@,
            bucket: self.bucket@,
            name: self.name@,
            content_type: self.content_type@,
            metadata: self.metadata.deep_view(),
            expected_length: self.expected_length,
            data: self.data@,
            received: self.received,
            finalized: self.finalized,
        }
    }
}

/// The answer to a request for an object.
#[derive(Debug)]
pub enum ObjectAnswer<'a> {
    /// The object, for its bytes and its content type.
    Media(&'a ObjectRecord),
    /// What is told of the object.
    Metadata(ObjectMetadata),
}

/// The buckets of all projects, and the uploads in several steps that are under way.
#[derive(Debug)]
pub struct StorageState {
    pub projects: TextMap<TextMap<Objects>>,
    pub resumable_uploads: TextMap<ResumableUploadSession>,
}

/// What the storage of all projects holds.
#[verifier::ext_equal]
pub struct StorageView {
    pub projects: Map<Seq<char>, Map<Seq<char>, ObjectsView>>,
    pub uploads: Map<Seq<char>, SessionView>,
}

impl DeepView for StorageState {
    type V = StorageView;

    open spec fn deep_view(&self) -> StorageView {
        StorageView {
            projects: self.projects.deep_view(),
            uploads: self.resumable_uploads.deep_view(),
        }
    }
}

impl StorageView {
    /// The buckets of a project.
    pub open spec fn buckets(self, project_id: Seq<char>) -> Map<Seq<char>, ObjectsView> {
        if self.projects.contains_key(project_id) {
            self.projects[project_id]
        } else {
            Map::empty()
        }
    }

    /// The objects of a bucket.
    pub open spec fn objects(self, project_id: Seq<char>, bucket: Seq<char>) -> ObjectsView {
        if self.buckets(project_id).contains_key(bucket) {
            self.buckets(project_id)[bucket]
        } else {
            Map::empty()
        }
    }

    /// The storage with other objects in a bucket.
    pub open spec fn with_objects(
        self,
        project_id: Seq<char>,
        bucket: Seq<char>,
        objects: ObjectsView,
    ) -> StorageView {
        StorageView {
            projects: self.projects.insert(
                project_id,
                self.buckets(project_id).insert(bucket, objects),
            ),
            ..self
        }
    }

    /// The storage with another upload under way.
    pub open spec fn with_session(self, upload_id: Seq<char>, session: SessionView) -> StorageView {
        StorageView { uploads: self.uploads.insert(upload_id, session), ..self }
    }
}

/// The storage after an object was stored, and what is told of it.
pub open spec fn upload_step(
    v: StorageView,
    project_id: Seq<char>,
    bucket: Seq<char>,
    upload: UploadView,
    now_ms: u64,
) -> (StorageView, Result<MetadataView, StorageError>) {
    if upload.name.len() == 0 {
        (v, Err(StorageError::MissingObjectName))
    } else {
        let objects = v.objects(project_id, bucket);
        let object = uploaded(objects, upload, now_ms);
        (
            v.with_objects(project_id, bucket, objects.insert(object.name, object)),
            Ok(told(bucket, object)),
        )
    }
}

impl Default for StorageState {
    fn default() -> (r: StorageState)
        ensures
            r.deep_view() == (StorageView { projects: Map::empty(), uploads: Map::empty() }),
    {
        StorageState::new()
    }
}

/// The storage after an object was deleted.
pub open spec fn delete_object_step(
    v: StorageView,
    project_id: Seq<char>,
    bucket: Seq<char>,
    name: Seq<char>,
) -> (StorageView, Result<(), StorageError>) {
    let objects = v.objects(project_id, bucket);
    if objects.contains_key(name) {
        (v.with_objects(project_id, bucket, objects.remove(name)), Ok(()))
    } else {
        (v, Err(StorageError::ObjectNotFound))
    }
}

/// The storage after a bucket was emptied.
pub open spec fn without_bucket(
    v: StorageView,
    project_id: Seq<char>,
    bucket: Seq<char>,
) -> StorageView {
    if v.projects.contains_key(project_id) {
        StorageView {
            projects: v.projects.insert(project_id, v.projects[project_id].remove(bucket)),
            ..v
        }
    } else {
        v
    }
}

/// What the answer to a request for an object holds.
pub enum FoundView {
    Media(ObjectView),
    Metadata(MetadataView),
}

/// The answer to a request for an object: the object where its bytes are asked for, and else what
/// is told of it.
pub open spec fn found_object(
    v: StorageView,
    project_id: Seq<char>,
    bucket: Seq<char>,
    name: Seq<char>,
    alt: Option<Seq<char>>,
) -> Result<FoundView, StorageError> {
    let objects = v.objects(project_id, bucket);
    if !objects.contains_key(name) {
        Err(StorageError::ObjectNotFound)
    } else if alt == Some("media"@) {
        Ok(FoundView::Media(objects[name]))
    } else {
        Ok(FoundView::Metadata(told(bucket, objects[name])))
    }
}

impl StorageState {
    /// No buckets yet.
    pub fn new() -> (r: StorageState)
        ensures
            r.deep_view() == (StorageView { projects: Map::empty(), uploads: Map::empty() }),
    {
        StorageState { projects: TextMap::new(), resumable_uploads: TextMap::new() }
    }

    /// The objects of a bucket, where it has been used.
    pub fn bucket(&self, project_id: &str, bucket: &str) -> (r: Option<&Objects>)
        ensures
            match r {
                Some(objects) => objects.deep_view() == self.deep_view().objects(
                    project_id@,
                    bucket@,
                ) && self.deep_view().buckets(project_id@).contains_key(bucket@),
                None => self.deep_view().objects(project_id@, bucket@) == Map::<
                    Seq<char>,
                    ObjectView,
                >::empty() && !self.deep_view().buckets(project_id@).contains_key(bucket@),
            },
    {
        match self.projects.get(project_id) {
            Some(buckets) => buckets.get(bucket),
            None => None,
        }
    }

    /// Whether an upload finds room for its generation.
    pub fn has_room(&self, project_id: &str, bucket: &str, name: &str) -> (r: bool)
        ensures
            r == generation_fits(self.deep_view().objects(project_id@, bucket@), name@),
    {
        match self.bucket(project_id, bucket) {
            Some(objects) => match objects.get(name) {
                Some(object) => object.generation < u64::MAX,
                None => true,
            },
            None => true,
        }
    }

    fn put_objects(&mut self, project_id: &str, bucket: &str, objects: Objects)
        ensures
            final(self).deep_view() == old(self).deep_view().with_objects(
                project_id@,
                bucket@,
                objects.deep_view(),
            ),
    {
        let ghost before = self.deep_view();
        let mut buckets = match self.projects.remove(project_id) {
            Some(buckets) => buckets,
            None => TextMap::new(),
        };
        buckets.insert(bucket.to_owned(), objects);
        let ghost after = buckets.deep_view();
        self.projects.insert(project_id.to_owned(), buckets);
        assert(before.projects.remove(project_id@).insert(project_id@, after)
            =~= before.projects.insert(project_id@, after));
    }

    fn take_objects(&mut self, project_id: &str, bucket: &str) -> (r: Objects)
        ensures
            r.deep_view() == old(self).deep_view().objects(project_id@, bucket@),
            forall|objects: ObjectsView| #[trigger]
                final(self).deep_view().with_objects(project_id@, bucket@, objects) == old(
                    self,
                ).deep_view().with_objects(project_id@, bucket@, objects),
    {
        let ghost before = self.deep_view();
        let mut buckets = match self.projects.remove(project_id) {
            Some(buckets) => buckets,
            None => TextMap::new(),
        };
        let ghost inner = buckets.deep_view();
        let objects = match buckets.remove(bucket) {
            Some(objects) => objects,
            None => TextMap::new(),
        };
        self.projects.insert(project_id.to_owned(), buckets);
        assert forall|o: ObjectsView| #[trigger]
            self.deep_view().with_objects(project_id@, bucket@, o) == before.with_objects(
                project_id@,
                bucket@,
                o,
            ) by {
            assert(inner.remove(bucket@).insert(bucket@, o) =~= inner.insert(bucket@, o));
            assert(self.deep_view().with_objects(project_id@, bucket@, o).projects
                =~= before.with_objects(project_id@, bucket@, o).projects);
        }
        objects
    }

    /// Stores an object and tells of it.
    pub fn upload_object(
        &mut self,
        project_id: &str,
        bucket: &str,
        upload: ParsedUpload,
        now_ms: u64,
    ) -> (r: Result<ObjectMetadata, StorageError>)
        requires
            generation_fits(old(self).deep_view().objects(project_id@, bucket@), upload.name@),
        ensures
            (final(self).deep_view(), storage_outcome(r)) == upload_step(
                old(self).deep_view(),
                project_id@,
                bucket@,
                upload.deep_view(),
                now_ms,
            ),
    {
        if upload.name.as_str().is_empty() {
            return Err(StorageError::MissingObjectName);
        }
        let mut objects = self.take_objects(project_id, bucket);
        let told_of = store_object(&mut objects, bucket, upload, now_ms);
        self.put_objects(project_id, bucket, objects);
        Ok(told_of)
    }

    /// The objects of a bucket in the order of their names.
    pub fn list_objects(&self, project_id: &str, bucket: &str, query: &ListQuery) -> (r: Vec<
        ObjectMetadata,
    >)
        ensures
            r.deep_view() == listed(
                bucket@,
                self.deep_view().objects(project_id@, bucket@),
                *query,
            ),
    {
        match self.bucket(project_id, bucket) {
            Some(objects) => list_bucket(objects, bucket, query),
            None => {
                let empty: Objects = TextMap::new();
                list_bucket(&empty, bucket, query)
            },
        }
    }

    /// An object of a bucket.
    pub fn find_object(&self, project_id: &str, bucket: &str, object: &str) -> (r: Result<
        &ObjectRecord,
        StorageError,
    >)
        ensures
            ({
                let objects = self.deep_view().objects(project_id@, bucket@);
                if objects.contains_key(object@) {
                    r is Ok && r->Ok_0.deep_view() == objects[object@]
                } else {
                    r == Err::<&ObjectRecord, StorageError>(StorageError::ObjectNotFound)
                }
            }),
    {
        match self.bucket(project_id, bucket) {
            Some(objects) => match objects.get(object) {
                Some(record) => Ok(record),
                None => Err(StorageError::ObjectNotFound),
            },
            None => Err(StorageError::ObjectNotFound),
        }
    }

    /// An object of a bucket: its bytes where they are asked for, or what is told of it.
    pub fn get_object(
        &self,
        project_id: &str,
        bucket: &str,
        object: &str,
        alt: Option<&str>,
    ) -> (r: Result<ObjectAnswer<'_>, StorageError>)
        ensures
            match found_object(
                self.deep_view(),
                project_id@,
                bucket@,
                object@,
                alt.deep_view(),
            ) {
                Err(e) => r is Err && r->Err_0 == e,
                Ok(FoundView::Media(found)) => r is Ok && r->Ok_0 is Media
                    && r->Ok_0->Media_0.deep_view() == found,
                Ok(FoundView::Metadata(found)) => r is Ok && r->Ok_0 is Metadata
                    && r->Ok_0->Metadata_0.deep_view() == found,
            },
    {
        match self.find_object(project_id, bucket, object) {
            Ok(record) => {
                let media = match alt {
                    Some(alt) => same_text(alt, "media"),
                    None => false,
                };
                if media {
                    Ok(ObjectAnswer::Media(record))
                } else {
                    Ok(ObjectAnswer::Metadata(metadata(bucket, record)))
                }
            },
            Err(e) => Err(e),
        }
    }

    /// Deletes an object of a bucket.
    pub fn delete_object(&mut self, project_id: &str, bucket: &str, object: &str) -> (r: Result<
        (),
        StorageError,
    >)
        ensures
            (final(self).deep_view(), r) == delete_object_step(
                old(self).deep_view(),
                project_id@,
                bucket@,
                object@,
            ),
    {
        if let Err(e) = self.find_object(project_id, bucket, object) {
            return Err(e);
        }
        let mut objects = self.take_objects(project_id, bucket);
        objects.remove(object);
        self.put_objects(project_id, bucket, objects);
        Ok(())
    }

    /// Forgets a bucket of a project.
    pub fn reset_emulator_bucket(&mut self, project_id: &str, bucket: &str)
        ensures
            final(self).deep_view() == without_bucket(
                old(self).deep_view(),
                project_id@,
                bucket@,
            ),
    {
        let ghost before = self.deep_view();
        match self.projects.remove(project_id) {
            Some(mut buckets) => {
                buckets.remove(bucket);
                let ghost after = buckets.deep_view();
                self.projects.insert(project_id.to_owned(), buckets);
                assert(before.projects.remove(project_id@).insert(project_id@, after)
                    =~= before.projects.insert(project_id@, after));
            },
            None => {
                assert(before.projects.remove(project_id@) =~= before.projects);
            },
        }
    }
}

} // verus!
