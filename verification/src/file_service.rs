//! The file service: it checks a request, makes or reads the record, and
//! says what the engine is to do.
//!
//! Each operation has two halves. The first checks the request and gives the
//! command for the engine; the second takes the engine's reply and gives the
//! operation's result.

use crate::codec::{record_bytes, record_fits};
use crate::engine::{CommandView, EngineCommand, EngineReply, ReplyView};
use crate::file_path::{file_name_of, names_a_file, split_full_path, storage_location_of};
use crate::object_store::{
    delete_file, file_deleted, file_retrieved, file_stored, read_outcome, retrieve_file,
    store_file, write_outcome,
};
use crate::record::{FileSchema, FileView, Metadata, MetadataView};
use crate::stamp::{current_time, fresh_id};
use vstd::prelude::*;
use vstd::string::StringExecFns;

verus! {

/// The ceiling on the size of a file's content where no other is chosen.
pub const DEFAULT_MAX_CONTENT_SIZE: u64 = 10_000_000;

/// What the service is set up with.
#[derive(Clone, Copy, Debug, PartialEq, Eq)]
pub struct ServiceConfig {
    /// The largest content, in bytes, that is accepted; `None` accepts any.
    pub max_content_size: Option<u64>,
}

impl Default for ServiceConfig {
    /// The ceiling is in force, at `DEFAULT_MAX_CONTENT_SIZE`.
    fn default() -> (config: ServiceConfig)
        ensures
            config.max_content_size == Some(DEFAULT_MAX_CONTENT_SIZE),
    {
        ServiceConfig { max_content_size: Some(DEFAULT_MAX_CONTENT_SIZE) }
    }
}

/// What a request lacks.
#[derive(Clone, Copy, Debug, PartialEq, Eq, Structural)]
pub enum RequestFault {
    /// No full path was given, or an empty one.
    FullPathMissing,
    /// No content type was given, or an empty one.
    ContentTypeMissing,
}

/// Why an operation of the service failed.
#[derive(Clone, Copy, Debug, PartialEq, Eq, Structural)]
pub enum ServiceError {
    /// The request lacks something that the operation needs.
    InvalidRequest(RequestFault),
    /// The full path does not name a file: it has no directory portion or no
    /// file name.
    InvalidPath,
    /// The content is larger than the ceiling.
    PayloadTooLarge,
    /// No record is kept under the path, or the store could not give it.
    NotFoundOrUnavailable,
    /// The store could not keep the record.
    StoreFailed,
    /// The store could not drop the record.
    DeleteFailed,
}

/// The characters of a text that a request may hold.
pub open spec fn given(text: Option<&str>) -> Option<Seq<char>> {
    match text {
        Some(t) => Some(t@),
        None => None,
    }
}

/// Whether a request holds a text, and not an empty one.
pub open spec fn is_present(text: Option<Seq<char>>) -> bool {
    text matches Some(t) && t.len() > 0
}

/// Tells whether a request holds a text, and not an empty one, and gives it.
fn present<'a>(text: Option<&'a str>) -> (found: Option<&'a str>)
    ensures
        match found {
            Some(t) => is_present(given(text)) && text == Some(t),
            None => !is_present(given(text)),
        },
{
    match text {
        Some(t) => if t.unicode_len() > 0 {
            Some(t)
        } else {
            None
        },
        None => None,
    }
}

/// The first thing that is wrong with a request to store a file, if
/// anything is: the full path is missing, the content type is missing, the
/// path does not name a file, or the content is larger than the ceiling.
pub open spec fn store_fault(
    max_content_size: Option<u64>,
    full_path: Option<Seq<char>>,
    content_type: Option<Seq<char>>,
    size: nat,
) -> Option<ServiceError> {
    if !is_present(full_path) {
        Some(ServiceError::InvalidRequest(RequestFault::FullPathMissing))
    } else if !is_present(content_type) {
        Some(ServiceError::InvalidRequest(RequestFault::ContentTypeMissing))
    } else if !names_a_file(full_path->0) {
        Some(ServiceError::InvalidPath)
    } else if max_content_size matches Some(ceiling) && size > ceiling {
        Some(ServiceError::PayloadTooLarge)
    } else {
        None
    }
}

/// The record that is made for a file: name and storage location are the
/// parts of the full path, the size is the length of the content, there is
/// no time of change, and the descriptive data is the fixed one.
pub open spec fn new_record_view(
    full_path: Seq<char>,
    content_type: Seq<char>,
    content: Seq<u8>,
    id: Seq<u8>,
    owner_id: Seq<u8>,
    created_at: Seq<char>,
) -> FileView {
    FileView {
        id,
        name: file_name_of(full_path),
        size: content.len() as u64,
        mime_type: content_type,
        binary_content: content,
        created_at,
        updated_at: None,
        owner_id,
        storage_location: storage_location_of(full_path),
        full_file_path: full_path,
        metadata: MetadataView::placeholder(),
    }
}

/// The command by which the service stores `record`.
pub open spec fn store_command(record: FileView) -> CommandView {
    CommandView::Put { key: record.full_file_path, value: record_bytes(record) }
}

/// The command by which the service fetches the file at `full_path`.
pub open spec fn fetch_command(full_path: Seq<char>) -> CommandView {
    CommandView::Get { key: full_path }
}

/// The command by which the service deletes the file at `full_path`.
pub open spec fn delete_command(full_path: Seq<char>) -> CommandView {
    CommandView::Delete { key: full_path }
}

/// A request to store a file that passed every check: its full path, its
/// content type, and the two parts of the path.
struct CheckedRequest<'a> {
    full_path: &'a str,
    content_type: &'a str,
    storage_location: String,
    name: String,
}

/// Checks a request to store a file, and refuses it for the first thing
/// that is wrong with it.
fn check_store_request<'a>(
    config: &ServiceConfig,
    full_path: Option<&'a str>,
    content_type: Option<&'a str>,
    size: usize,
) -> (checked: Result<CheckedRequest<'a>, ServiceError>)
    ensures
        match checked {
            Ok(request) => {
                &&& store_fault(
                    config.max_content_size,
                    given(full_path),
                    given(content_type),
                    size as nat,
                ) is None
                &&& full_path == Some(request.full_path)
                &&& content_type == Some(request.content_type)
                &&& request.storage_location@ == storage_location_of(request.full_path@)
                &&& request.name@ == file_name_of(request.full_path@)
            },
            Err(e) => store_fault(
                config.max_content_size,
                given(full_path),
                given(content_type),
                size as nat,
            ) == Some(e),
        },
{
    let path = match present(full_path) {
        Some(p) => p,
        None => {
            return Err(ServiceError::InvalidRequest(RequestFault::FullPathMissing));
        },
    };
    let mime_type = match present(content_type) {
        Some(t) => t,
        None => {
            return Err(ServiceError::InvalidRequest(RequestFault::ContentTypeMissing));
        },
    };
    let (storage_location, name) = match split_full_path(path) {
        Some(parts) => parts,
        None => {
            return Err(ServiceError::InvalidPath);
        },
    };
    match config.max_content_size {
        Some(ceiling) => {
            if size as u64 > ceiling {
                return Err(ServiceError::PayloadTooLarge);
            }
        },
        None => {},
    }
    Ok(CheckedRequest { full_path: path, content_type: mime_type, storage_location, name })
}

/// Makes the record of a request that passed every check.
fn assemble_record(
    request: CheckedRequest<'_>,
    content: Vec<u8>,
    id: [u8; 12],
    owner_id: [u8; 12],
    created_at: String,
) -> (record: FileSchema)
    requires
        names_a_file(request.full_path@),
        request.storage_location@ == storage_location_of(request.full_path@),
        request.name@ == file_name_of(request.full_path@),
    ensures
        record@ == new_record_view(
            request.full_path@,
            request.content_type@,
            content@,
            id@,
            owner_id@,
            created_at@,
        ),
        record.wf(),
{
    FileSchema {
        id,
        name: request.name,
        size: content.len() as u64,
        mime_type: request.content_type.to_owned(),
        binary_content: content,
        created_at,
        updated_at: None,
        owner_id,
        storage_location: request.storage_location,
        full_file_path: request.full_path.to_owned(),
        metadata: Metadata::placeholder(),
    }
}

/// Checks a request to store a file and makes its record, with the
/// identifiers and the time that the caller hands in. The request is
/// refused for the first thing that is wrong with it.
pub fn new_record(
    config: &ServiceConfig,
    full_path: Option<&str>,
    content_type: Option<&str>,
    content: Vec<u8>,
    id: [u8; 12],
    owner_id: [u8; 12],
    created_at: String,
) -> (made: Result<FileSchema, ServiceError>)
    ensures
        match made {
            Ok(record) => {
                &&& store_fault(
                    config.max_content_size,
                    given(full_path),
                    given(content_type),
                    content@.len(),
                ) is None
                &&& record@ == new_record_view(
                    given(full_path)->0,
                    given(content_type)->0,
                    content@,
                    id@,
                    owner_id@,
                    created_at@,
                )
                &&& record.wf()
            },
            Err(e) => store_fault(
                config.max_content_size,
                given(full_path),
                given(content_type),
                content@.len(),
            ) == Some(e),
        },
{
    match check_store_request(config, full_path, content_type, content.len()) {
        Ok(request) => Ok(assemble_record(request, content, id, owner_id, created_at)),
        Err(e) => Err(e),
    }
}

/// Begins to store a file: checks the request, makes the record with a new
/// identifier, a new owner identifier and the current time, and gives the
/// command that keeps the record under its full path. Where the request is
/// refused no command is given, so nothing is kept. Of the two identifiers
/// and the time nothing is promised: they are what the outside gave.
pub fn begin_store(
    config: &ServiceConfig,
    full_path: Option<&str>,
    content_type: Option<&str>,
    content: Vec<u8>,
) -> (begun: Result<(FileSchema, EngineCommand), ServiceError>)
    ensures
        match begun {
            Ok((record, command)) => {
                &&& store_fault(
                    config.max_content_size,
                    given(full_path),
                    given(content_type),
                    content@.len(),
                ) is None
                &&& record@ == new_record_view(
                    given(full_path)->0,
                    given(content_type)->0,
                    content@,
                    record@.id,
                    record@.owner_id,
                    record@.created_at,
                )
                &&& record.wf()
                &&& record_fits(record@)
                &&& command@ == store_command(record@)
            },
            Err(e) => store_fault(
                config.max_content_size,
                given(full_path),
                given(content_type),
                content@.len(),
            ) == Some(e),
        },
{
    let request = match check_store_request(config, full_path, content_type, content.len()) {
        Ok(request) => request,
        Err(e) => {
            return Err(e);
        },
    };
    let id = fresh_id();
    let owner_id = fresh_id();
    let created_at = current_time();
    let record = assemble_record(request, content, id, owner_id, created_at);
    let command = store_file(record.full_file_path.clone(), &record);
    Ok((record, command))
}

/// What the engine's reply means for a file that was to be stored.
pub open spec fn store_outcome(reply: ReplyView) -> Result<(), ServiceError> {
    match write_outcome(reply) {
        Ok(()) => Ok(()),
        Err(_) => Err(ServiceError::StoreFailed),
    }
}

/// Ends the storing of a file: gives the record back where the engine kept
/// it, and `StoreFailed` for any other reply.
pub fn finish_store(record: FileSchema, reply: &EngineReply) -> (stored: Result<
    FileSchema,
    ServiceError,
>)
    ensures
        match stored {
            Ok(kept) => store_outcome(reply@) is Ok && kept == record,
            Err(e) => store_outcome(reply@) == Err::<(), ServiceError>(e),
        },
{
    match file_stored(reply) {
        Ok(()) => Ok(record),
        Err(_) => Err(ServiceError::StoreFailed),
    }
}

/// What is wrong with a request that needs nothing but a full path, if
/// anything is.
pub open spec fn path_fault(full_path: Option<Seq<char>>) -> Option<ServiceError> {
    if is_present(full_path) {
        None
    } else {
        Some(ServiceError::InvalidRequest(RequestFault::FullPathMissing))
    }
}

/// Begins to fetch a file: gives the command that asks for the record under
/// the full path, which must be there and not empty.
pub fn begin_fetch(full_path: Option<&str>) -> (begun: Result<EngineCommand, ServiceError>)
    ensures
        match begun {
            Ok(command) => path_fault(given(full_path)) is None && command@ == fetch_command(
                given(full_path)->0,
            ),
            Err(e) => path_fault(given(full_path)) == Some(e),
        },
{
    match present(full_path) {
        Some(path) => Ok(retrieve_file(path.to_owned())),
        None => Err(ServiceError::InvalidRequest(RequestFault::FullPathMissing)),
    }
}

/// What the engine's reply means for a file that was to be fetched: the
/// content of the record that the bytes stand for, and
/// `NotFoundOrUnavailable` where the key holds nothing, the engine failed,
/// or the bytes are not those of a record.
pub open spec fn fetch_outcome(reply: ReplyView) -> Result<Seq<u8>, ServiceError> {
    match read_outcome(reply) {
        Ok(Some(record)) => Ok(record.binary_content),
        _ => Err(ServiceError::NotFoundOrUnavailable),
    }
}

/// Ends the fetching of a file: gives the content of the record, and
/// nothing else of it.
pub fn finish_fetch(reply: &EngineReply) -> (fetched: Result<Vec<u8>, ServiceError>)
    ensures
        match fetched {
            Ok(content) => fetch_outcome(reply@) == Ok::<Seq<u8>, ServiceError>(content@),
            Err(e) => fetch_outcome(reply@) == Err::<Seq<u8>, ServiceError>(e),
        },
{
    match file_retrieved(reply) {
        Ok(Some(record)) => Ok(record.binary_content),
        _ => Err(ServiceError::NotFoundOrUnavailable),
    }
}

/// Begins to delete a file: gives the command that drops the record under
/// the full path, which must be there and not empty.
pub fn begin_delete(full_path: Option<&str>) -> (begun: Result<EngineCommand, ServiceError>)
    ensures
        match begun {
            Ok(command) => path_fault(given(full_path)) is None && command@ == delete_command(
                given(full_path)->0,
            ),
            Err(e) => path_fault(given(full_path)) == Some(e),
        },
{
    match present(full_path) {
        Some(path) => Ok(delete_file(path.to_owned())),
        None => Err(ServiceError::InvalidRequest(RequestFault::FullPathMissing)),
    }
}

/// What the engine's reply means for a file that was to be deleted.
pub open spec fn delete_outcome(reply: ReplyView) -> Result<(), ServiceError> {
    match write_outcome(reply) {
        Ok(()) => Ok(()),
        Err(_) => Err(ServiceError::DeleteFailed),
    }
}

/// Ends the deleting of a file: `DeleteFailed` for any reply but the one
/// that says that the removal was done.
pub fn finish_delete(reply: &EngineReply) -> (deleted: Result<(), ServiceError>)
    ensures
        deleted == delete_outcome(reply@),
{
    match file_deleted(reply) {
        Ok(()) => Ok(()),
        Err(_) => Err(ServiceError::DeleteFailed),
    }
}

/// What is said of an operation that was done.
#[derive(Clone, Copy, Debug, PartialEq, Eq, Structural)]
pub enum Acknowledgment {
    /// A file was stored.
    Stored,
    /// A replacement was asked for.
    Replaced,
    /// A file was deleted.
    Deleted,
}

/// Replaces a file: the request is acknowledged and nothing else is done.
/// No command goes to the engine, so what the store keeps stays as it is;
/// to overwrite a file, store it again under the same path.
pub fn replace() -> (done: Acknowledgment)
    ensures
        done == Acknowledgment::Replaced,
{
    Acknowledgment::Replaced
}

impl Acknowledgment {
    /// The HTTP status that goes with the acknowledgment: 201 for a stored
    /// file, 200 for the others.
    pub open spec fn status(self) -> u16 {
        match self {
            Acknowledgment::Stored => 201,
            Acknowledgment::Replaced => 200,
            Acknowledgment::Deleted => 200,
        }
    }

    /// The text that goes with the acknowledgment.
    pub open spec fn text(self) -> Seq<char> {
        match self {
            Acknowledgment::Stored => "File uploaded successfully"@,
            Acknowledgment::Replaced => "File put successfully"@,
            Acknowledgment::Deleted => "File deleted successfully"@,
        }
    }

    /// The HTTP status that goes with the acknowledgment.
    pub fn status_code(&self) -> (code: u16)
        ensures
            code == self.status(),
    {
        match self {
            Acknowledgment::Stored => 201,
            Acknowledgment::Replaced => 200,
            Acknowledgment::Deleted => 200,
        }
    }

    /// The text that goes with the acknowledgment.
    pub fn message(&self) -> (text: String)
        ensures
            text@ == self.text(),
    {
        match self {
            Acknowledgment::Stored => "File uploaded successfully".to_owned(),
            Acknowledgment::Replaced => "File put successfully".to_owned(),
            Acknowledgment::Deleted => "File deleted successfully".to_owned(),
        }
    }
}

impl ServiceError {
    /// The HTTP status that goes with the error: 400 where the request is
    /// at fault, 500 where the store is.
    pub open spec fn status(self) -> u16 {
        match self {
            ServiceError::InvalidRequest(_) => 400,
            ServiceError::InvalidPath => 400,
            ServiceError::PayloadTooLarge => 400,
            ServiceError::NotFoundOrUnavailable => 500,
            ServiceError::StoreFailed => 500,
            ServiceError::DeleteFailed => 500,
        }
    }

    /// The text that tells a caller what failed; for a file that could not
    /// be fetched it ends in the full path that was asked for.
    pub open spec fn text(self, full_path: Seq<char>) -> Seq<char> {
        match self {
            ServiceError::InvalidRequest(RequestFault::FullPathMissing) =>
                "x-full-file-path header is missing"@,
            ServiceError::InvalidRequest(RequestFault::ContentTypeMissing) =>
                "Content-Type header is missing"@,
            ServiceError::InvalidPath => "Invalid file path"@,
            ServiceError::PayloadTooLarge => "File size exceeds the limit"@,
            ServiceError::NotFoundOrUnavailable => "Failed to retrieve file at path: "@
                + full_path,
            ServiceError::StoreFailed => "Failed to store file"@,
            ServiceError::DeleteFailed => "Failed to delete file"@,
        }
    }

    /// The HTTP status that goes with the error.
    pub fn status_code(&self) -> (code: u16)
        ensures
            code == self.status(),
    {
        match self {
            ServiceError::InvalidRequest(_) => 400,
            ServiceError::InvalidPath => 400,
            ServiceError::PayloadTooLarge => 400,
            ServiceError::NotFoundOrUnavailable => 500,
            ServiceError::StoreFailed => 500,
            ServiceError::DeleteFailed => 500,
        }
    }

    /// The text that tells a caller what failed. `full_path` is the path of
    /// the request, or an empty text where it had none.
    pub fn message(&self, full_path: &str) -> (text: String)
        ensures
            text@ == self.text(full_path@),
    {
        match self {
            ServiceError::InvalidRequest(RequestFault::FullPathMissing) =>
                "x-full-file-path header is missing".to_owned(),
            ServiceError::InvalidRequest(RequestFault::ContentTypeMissing) =>
                "Content-Type header is missing".to_owned(),
            ServiceError::InvalidPath => "Invalid file path".to_owned(),
            ServiceError::PayloadTooLarge => "File size exceeds the limit".to_owned(),
            ServiceError::NotFoundOrUnavailable => "Failed to retrieve file at path: ".to_owned()
                .concat(full_path),
            ServiceError::StoreFailed => "Failed to store file".to_owned(),
            ServiceError::DeleteFailed => "Failed to delete file".to_owned(),
        }
    }
}

} // verus!
