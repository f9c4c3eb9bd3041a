//! The record that stands for one stored file, and its descriptive data.

use crate::file_path::{file_name_of, names_a_file, storage_location_of};
use vstd::prelude::*;

verus! {

/// The number of bytes in an identifier.
pub const ID_LEN: usize = 12;

/// The characters of an optional text.
pub open spec fn optional_text(text: Option<String>) -> Option<Seq<char>> {
    match text {
        Some(t) => Some(t@),
        None => None,
    }
}

/// Descriptive data attached to a stored file.
#[derive(Clone, Debug, PartialEq, Eq)]
pub struct Metadata {
    pub description: Option<String>,
    pub tags: Vec<String>,
}

/// What a `Metadata` holds, as mathematical values.
#[verifier::ext_equal]
pub struct MetadataView {
    pub description: Option<Seq<char>>,
    pub tags: Seq<Seq<char>>,
}

impl View for Metadata {
    type V = MetadataView;

    open spec fn view(&self) -> MetadataView {
        MetadataView {
            description: optional_text(self.description),
            tags: self.tags.deep_view(),
        }
    }
}

impl MetadataView {
    /// The descriptive data that every new record carries.
    pub open spec fn placeholder() -> MetadataView {
        MetadataView {
            description: Some("File description"@),
            tags: seq!["tag1"@, "tag2"@],
        }
    }
}

impl Metadata {
    /// The descriptive data that every new record carries: a fixed
    /// description and two fixed tags.
    pub fn placeholder() -> (metadata: Metadata)
        ensures
            metadata@ == MetadataView::placeholder(),
    {
        let mut tags: Vec<String> = Vec::new();
        tags.push("tag1".to_owned());
        tags.push("tag2".to_owned());
        let metadata = Metadata { description: Some("File description".to_owned()), tags };
        assert(metadata.tags.deep_view() =~= seq!["tag1"@, "tag2"@]);
        metadata
    }
}

/// One stored file: its bytes and what describes them.
#[derive(Clone, Debug, PartialEq, Eq)]
pub struct FileSchema {
    /// Identifies the record; made when the record is made.
    pub id: [u8; 12],
    /// The final segment of the full path.
    pub name: String,
    /// The number of bytes in `binary_content`.
    pub size: u64,
    /// The content type that the caller gave.
    pub mime_type: String,
    /// The file's bytes.
    pub binary_content: Vec<u8>,
    /// When the record was made.
    pub created_at: String,
    /// When the record was last changed, if ever.
    pub updated_at: Option<String>,
    /// Identifies the owner; it gives no rights.
    pub owner_id: [u8; 12],
    /// The directory portion of the full path.
    pub storage_location: String,
    /// The path that the caller gave: the key under which the record is kept.
    pub full_file_path: String,
    /// Descriptive data.
    pub metadata: Metadata,
}

/// What a `FileSchema` holds, as mathematical values.
#[verifier::ext_equal]
pub struct FileView {
    pub id: Seq<u8>,
    pub name: Seq<char>,
    pub size: u64,
    pub mime_type: Seq<char>,
    pub binary_content: Seq<u8>,
    pub created_at: Seq<char>,
    pub updated_at: Option<Seq<char>>,
    pub owner_id: Seq<u8>,
    pub storage_location: Seq<char>,
    pub full_file_path: Seq<char>,
    pub metadata: MetadataView,
}

impl FileView {
    /// A record is well formed when its identifiers have their length, its
    /// size is the length of its content, and its name and storage location
    /// are the two parts of its full path, which names a file.
    pub open spec fn wf(self) -> bool {
        &&& self.id.len() == ID_LEN
        &&& self.owner_id.len() == ID_LEN
        &&& self.size == self.binary_content.len()
        &&& names_a_file(self.full_file_path)
        &&& self.name == file_name_of(self.full_file_path)
        &&& self.storage_location == storage_location_of(self.full_file_path)
    }
}

impl View for FileSchema {
    type V = FileView;

    open spec fn view(&self) -> FileView {
        FileView {
            id: self.id@,
            name: self.name@,
            size: self.size,
            mime_type: self.mime_type@,
            binary_content: self.binary_content@,
            created_at: self.created_at@,
            updated_at: optional_text(self.updated_at),
            owner_id: self.owner_id@,
            storage_location: self.storage_location@,
            full_file_path: self.full_file_path@,
            metadata: self.metadata@,
        }
    }
}

impl FileSchema {
    /// Whether this record is well formed.
    pub open spec fn wf(&self) -> bool {
        self@.wf()
    }

    /// Tells whether the record is well formed: whether its size and the two
    /// parts of its path agree with its content and its full path.
    pub fn is_well_formed(&self) -> (ok: bool)
        ensures
            ok == self.wf(),
    {
        if self.binary_content.len() as u64 != self.size {
            return false;
        }
        match crate::file_path::split_full_path(self.full_file_path.as_str()) {
            None => false,
            Some((location, name)) => {
                location == self.storage_location && name == self.name
            },
        }
    }
}

} // verus!
