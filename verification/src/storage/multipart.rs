//! Uploads of an object together with its metadata.

use crate::percent::{lossy_text, text_from_utf8_lossy};
use crate::storage::errors::{storage_outcome, StorageError};
use crate::storage::objects::{ParsedUpload, UploadView};
use crate::text::{
    cut, join2, lines, lines_of, pieces, same_text, split, split_once, starts_with, strip_prefix,
    without_prefix,
};
use crate::text_map::TextMap;
use crate::trim::{
    lower_case, to_ascii_lowercase, trim, trim_char, trim_end_text, trim_start_text, trimmed,
    without_leading, without_prefixes, without_suffixes, without_trailing,
};
use vstd::prelude::*;
use vstd::utf8::encode_utf8;

verus! {

/// The content type of an object that comes without one.
pub const DEFAULT_CONTENT_TYPE: &'static str = "application/octet-stream";

/// One part of a multipart body.
#[derive(Debug)]
pub struct MultipartPart {
    pub content_type: Option<String>,
    pub body: Vec<u8>,
}

/// What one part of a multipart body holds.
#[verifier::ext_equal]
pub struct PartView {
    pub content_type: Option<Seq<char>>,
    pub body: Seq<u8>,
}

impl DeepView for MultipartPart {
    type V = PartView;

    open spec fn deep_view(&self) -> PartView {
        PartView { content_type: self.content_type.deep_view(), body: self.body@ }
    }
}

/// The content type that the headers of a part give: the value of the first line of that name.
pub open spec fn content_type_in(headers: Seq<Seq<char>>) -> Option<Seq<char>>
    decreases headers.len(),
{
    if headers.len() == 0 {
        None
    } else {
        match cut(headers[0], ":"@) {
            Some((name, value)) => if lower_case(name) == "content-type"@ {
                Some(trimmed(value))
            } else {
                content_type_in(headers.drop_first())
            },
            None => content_type_in(headers.drop_first()),
        }
    }
}

/// What a section between two delimiters is.
#[verifier::ext_equal]
pub enum SectionView {
    Skipped,
    Part(PartView),
    Invalid,
}

/// What a section between two delimiters is: one that is empty or starts with two hyphens is
/// none, and any other has headers, an empty line and a body.
pub open spec fn section_of(text: Seq<char>) -> SectionView {
    let section = without_prefixes(text, "\r\n"@);
    if section.len() == 0 || "--"@.is_prefix_of(section) {
        SectionView::Skipped
    } else {
        match cut(without_suffixes(section, "\r\n"@), "\r\n\r\n"@) {
            Some((headers, body)) => SectionView::Part(
                PartView {
                    content_type: content_type_in(lines_of(headers)),
                    body: encode_utf8(body),
                },
            ),
            None => SectionView::Invalid,
        }
    }
}

/// The parts in a row of sections, unless one of them is invalid.
pub open spec fn parts_in(sections: Seq<Seq<char>>) -> Option<Seq<PartView>>
    decreases sections.len(),
{
    if sections.len() == 0 {
        Some(Seq::empty())
    } else {
        match (parts_in(sections.drop_last()), section_of(sections.last())) {
            (Some(before), SectionView::Skipped) => Some(before),
            (Some(before), SectionView::Part(part)) => Some(before.push(part)),
            _ => None,
        }
    }
}

/// The parts of a multipart text. What stands before the first delimiter is none.
pub open spec fn parts_of(text: Seq<char>, boundary: Seq<char>) -> Option<Seq<PartView>> {
    parts_in(pieces(text, "--"@ + boundary).skip(1))
}

fn find_content_type(headers: &Vec<String>) -> (r: Option<String>)
    ensures
        r.deep_view() == content_type_in(headers.deep_view()),
{
    let mut i: usize = 0;
    assert(headers.deep_view().skip(0) =~= headers.deep_view());
    while i < headers.len()
        invariant
            i <= headers@.len(),
            content_type_in(headers.deep_view()) == content_type_in(
                headers.deep_view().skip(i as int),
            ),
        decreases headers@.len() - i,
    {
        assert(headers.deep_view().skip(i as int)[0] == headers@[i as int]@);
        assert(headers.deep_view().skip(i as int).drop_first() =~= headers.deep_view().skip(i + 1));
        if let Some((name, value)) = split_once(headers[i].as_str(), ":") {
            if same_text(to_ascii_lowercase(name).as_str(), "content-type") {
                return Some(trim(value).to_owned());
            }
        }
        i += 1;
    }
    None
}

/// A section between two delimiters.
enum Section {
    Skipped,
    Part(MultipartPart),
    Invalid,
}

spec fn section_view(s: Section) -> SectionView {
    match s {
        Section::Skipped => SectionView::Skipped,
        Section::Part(part) => SectionView::Part(part.deep_view()),
        Section::Invalid => SectionView::Invalid,
    }
}

fn read_section(text: &str) -> (r: Section)
    ensures
        section_view(r) == section_of(text@),
{
    proof {
        reveal_strlit("\r\n");
    }
    let section = trim_start_text(text, "\r\n");
    if section.is_empty() || starts_with(section, "--") {
        return Section::Skipped;
    }
    match split_once(trim_end_text(section, "\r\n"), "\r\n\r\n") {
        Some((headers, body)) => {
            let content_type = find_content_type(&lines(headers));
            Section::Part(
                MultipartPart { content_type, body: vstd::slice::slice_to_vec(body.as_bytes()) },
            )
        },
        None => Section::Invalid,
    }
}

/// The parts of a multipart text.
pub fn parts_of_text(text: &str, boundary: &str) -> (r: Result<Vec<MultipartPart>, StorageError>)
    ensures
        match parts_of(text@, boundary@) {
            Some(parts) => r is Ok && r->Ok_0.deep_view() == parts,
            None => r == Err::<Vec<MultipartPart>, StorageError>(
                StorageError::InvalidMultipartUpload,
            ),
        },
{
    proof {
        reveal_strlit("--");
    }
    let delimiter = join2("--", boundary);
    let sections = split(text, delimiter.as_str());
    let ghost all = pieces(text@, delimiter@);
    let ghost wanted = all.skip(1);
    proof {
        pieces_not_empty(text@, delimiter@);
    }
    let mut parts: Vec<MultipartPart> = Vec::new();
    let mut i: usize = 1;
    assert(wanted.take(0) =~= Seq::empty());
    assert(parts.deep_view() =~= Seq::empty());
    while i < sections.len()
        invariant
            1 <= i <= sections@.len(),
            all == sections.deep_view(),
            wanted == all.skip(1),
            parts_of(text@, boundary@) == parts_in(wanted),
            parts_in(wanted.take(i - 1)) == Some(parts.deep_view()),
        decreases sections@.len() - i,
    {
        let ghost before = parts.deep_view();
        let section: &str = sections[i];
        assert(all[i as int] == section@);
        assert(wanted.take(i as int).drop_last() =~= wanted.take(i - 1));
        assert(wanted.take(i as int).last() == section@);
        match read_section(section) {
            Section::Skipped => {},
            Section::Part(part) => {
                let ghost added = part.deep_view();
                parts.push(part);
                assert(parts.deep_view() =~= before.push(added));
            },
            Section::Invalid => {
                proof {
                    invalid_prefix(wanted, i as int);
                }
                return Err(StorageError::InvalidMultipartUpload);
            },
        }
        i += 1;
    }
    assert(wanted.take(i - 1) =~= wanted);
    Ok(parts)
}

proof fn pieces_not_empty(s: Seq<char>, p: Seq<char>)
    requires
        p.len() > 0,
    ensures
        pieces(s, p).len() > 0,
{
}

proof fn invalid_prefix(sections: Seq<Seq<char>>, i: int)
    requires
        0 <= i <= sections.len(),
        parts_in(sections.take(i)) is None,
    ensures
        parts_in(sections) is None,
    decreases sections.len() - i,
{
    if i < sections.len() {
        assert(sections.take(i + 1).drop_last() =~= sections.take(i));
        invalid_prefix(sections, i + 1);
    } else {
        assert(sections.take(i) =~= sections);
    }
}

/// The parts of a multipart body.
pub fn parse_multipart_body(body: &[u8], boundary: &str) -> (r: Result<
    Vec<MultipartPart>,
    StorageError,
>)
    ensures
        match parts_of(lossy_text(body@), boundary@) {
            Some(parts) => r is Ok && r->Ok_0.deep_view() == parts,
            None => r == Err::<Vec<MultipartPart>, StorageError>(
                StorageError::InvalidMultipartUpload,
            ),
        },
{
    let text = text_from_utf8_lossy(body);
    parts_of_text(text.as_str(), boundary)
}

/// The boundary that a content type gives, by its parameters.
pub open spec fn boundary_in(parameters: Seq<Seq<char>>) -> Option<Seq<char>>
    decreases parameters.len(),
{
    if parameters.len() == 0 {
        None
    } else {
        match without_prefix(trimmed(parameters[0]), "boundary="@) {
            Some(value) => Some(without_trailing(without_leading(value, '"'), '"')),
            None => boundary_in(parameters.drop_first()),
        }
    }
}

/// The boundary that a content type gives.
pub open spec fn boundary_of(content_type: Seq<char>) -> Option<Seq<char>> {
    boundary_in(pieces(content_type, ";"@))
}

/// The boundary that a content type gives.
pub fn find_boundary(content_type: &str) -> (r: Option<String>)
    ensures
        r.deep_view() == boundary_of(content_type@),
{
    proof {
        reveal_strlit(";");
    }
    let parameters = split(content_type, ";");
    let ghost all = parameters.deep_view();
    let mut i: usize = 0;
    assert(all.skip(0) =~= all);
    while i < parameters.len()
        invariant
            i <= parameters@.len(),
            all == parameters.deep_view(),
            boundary_of(content_type@) == boundary_in(all.skip(i as int)),
        decreases parameters@.len() - i,
    {
        let parameter: &str = parameters[i];
        assert(all.skip(i as int)[0] == parameter@);
        assert(all.skip(i as int).drop_first() =~= all.skip(i + 1));
        if let Some(value) = strip_prefix(trim(parameter), "boundary=") {
            return Some(trim_char(value, '"').to_owned());
        }
        i += 1;
    }
    None
}

/// The content type of a request, or the default.
pub open spec fn content_type_or_default(content_type: Option<Seq<char>>) -> Seq<char> {
    match content_type {
        Some(content_type) => content_type,
        None => "application/octet-stream"@,
    }
}

/// An upload whose metadata is not read yet.
#[derive(Debug)]
pub enum UploadFrame {
    /// The body is the object.
    Plain { content_type: String },
    /// The metadata and the object are parts of the body.
    Multipart { metadata: Vec<u8>, media: MultipartPart },
}

/// What an upload whose metadata is not read yet holds.
#[verifier::ext_equal]
pub enum FrameView {
    Plain { content_type: Seq<char> },
    Multipart { metadata: Seq<u8>, media: PartView },
}

impl DeepView for UploadFrame {
    type V = FrameView;

    open spec fn deep_view(&self) -> FrameView {
        match *self {
            UploadFrame::Plain { content_type } => FrameView::Plain {
                content_type: content_type@,
            },
            UploadFrame::Multipart { metadata, media } => FrameView::Multipart {
                metadata: metadata@,
                media: media.deep_view(),
            },
        }
    }
}

/// How an upload is put together.
pub open spec fn framed(content_type: Option<Seq<char>>, body: Seq<u8>) -> Result<
    FrameView,
    StorageError,
> {
    let content_type = content_type_or_default(content_type);
    if !"multipart/"@.is_prefix_of(content_type) {
        Ok(FrameView::Plain { content_type })
    } else {
        match boundary_of(content_type) {
            None => Err(StorageError::InvalidMultipartUpload),
            Some(boundary) => match parts_of(lossy_text(body), boundary) {
                None => Err(StorageError::InvalidMultipartUpload),
                Some(parts) => if parts.len() < 2 {
                    Err(StorageError::InvalidMultipartUpload)
                } else {
                    Ok(FrameView::Multipart { metadata: parts[0].body, media: parts[1] })
                },
            },
        }
    }
}

/// How an upload is put together: a multipart body has the metadata as its first part and the
/// object as its second.
pub fn frame_upload(content_type: Option<&str>, body: &[u8]) -> (r: Result<
    UploadFrame,
    StorageError,
>)
    ensures
        storage_outcome(r) == framed(content_type.deep_view(), body@),
{
    let content_type = match content_type {
        Some(content_type) => content_type.to_owned(),
        None => "application/octet-stream".to_owned(),
    };
    if !starts_with(content_type.as_str(), "multipart/") {
        return Ok(UploadFrame::Plain { content_type });
    }
    let boundary = match find_boundary(content_type.as_str()) {
        Some(boundary) => boundary,
        None => {
            return Err(StorageError::InvalidMultipartUpload);
        },
    };
    match parse_multipart_body(body, boundary.as_str()) {
        Ok(parts) => {
            let mut parts = parts;
            let ghost views = parts.deep_view();
            assert(views.len() == parts@.len());
            if parts.len() < 2 {
                return Err(StorageError::InvalidMultipartUpload);
            }
            assert(views[0] == parts@[0].deep_view() && views[1] == parts@[1].deep_view());
            let media = parts.remove(1);
            let first = parts.remove(0);
            Ok(UploadFrame::Multipart { metadata: first.body, media })
        },
        Err(e) => Err(e),
    }
}

/// The metadata that comes with an upload.
#[derive(Debug)]
pub struct UploadMetadata {
    pub name: Option<String>,
    pub content_type: Option<String>,
    pub metadata: TextMap<String>,
}

/// The first of two texts that is there.
pub open spec fn either(a: Option<Seq<char>>, b: Option<Seq<char>>) -> Option<Seq<char>> {
    if a is Some {
        a
    } else {
        b
    }
}

/// The object that an upload stores, once its metadata was read: `None` where it could not be.
pub open spec fn assembled(
    frame: FrameView,
    query_name: Option<Seq<char>>,
    metadata: Option<UploadMetadata>,
    body: Seq<u8>,
) -> Result<UploadView, StorageError> {
    match frame {
        FrameView::Plain { content_type } => match query_name {
            Some(name) => Ok(
                UploadView { name, content_type, metadata: Map::empty(), data: body },
            ),
            None => Err(StorageError::MissingObjectName),
        },
        FrameView::Multipart { media, .. } => match metadata {
            None => Err(StorageError::InvalidMultipartUpload),
            Some(given) => match either(query_name, given.name.deep_view()) {
                None => Err(StorageError::MissingObjectName),
                Some(name) => Ok(
                    UploadView {
                        name,
                        content_type: content_type_or_default(
                            either(given.content_type.deep_view(), media.content_type),
                        ),
                        metadata: given.metadata.deep_view(),
                        data: media.body,
                    },
                ),
            },
        },
    }
}

pub(crate) fn first_of(a: Option<String>, b: Option<String>) -> (r: Option<String>)
    ensures
        r.deep_view() == either(a.deep_view(), b.deep_view()),
{
    if a.is_some() {
        a
    } else {
        b
    }
}

/// The object that an upload stores. The name in the query goes before that in the metadata, and
/// the content type in the metadata before that of the part.
pub fn assemble_upload(
    frame: UploadFrame,
    query_name: Option<String>,
    metadata: Option<UploadMetadata>,
    body: Vec<u8>,
) -> (r: Result<ParsedUpload, StorageError>)
    ensures
        storage_outcome(r) == assembled(
            frame.deep_view(),
            query_name.deep_view(),
            metadata,
            body@,
        ),
{
    match frame {
        UploadFrame::Plain { content_type } => match query_name {
            Some(name) => Ok(
                ParsedUpload { name, content_type, metadata: TextMap::new(), data: body },
            ),
            None => Err(StorageError::MissingObjectName),
        },
        UploadFrame::Multipart { media, .. } => match metadata {
            None => Err(StorageError::InvalidMultipartUpload),
            Some(given) => match first_of(query_name, given.name) {
                None => Err(StorageError::MissingObjectName),
                Some(name) => {
                    let content_type = match first_of(given.content_type, media.content_type) {
                        Some(content_type) => content_type,
                        None => "application/octet-stream".to_owned(),
                    };
                    Ok(
                        ParsedUpload {
                            name,
                            content_type,
                            metadata: given.metadata,
                            data: media.body,
                        },
                    )
                },
            },
        },
    }
}

} // verus!
