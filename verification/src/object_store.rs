//! The object store: records kept in the engine under their full path.

use crate::codec::{decode_record, decoded, encode_record, record_bytes, record_fits};
use crate::engine::{CommandView, EngineCommand, EngineReply, ReplyView};
use crate::file_path::SEPARATOR;
use crate::record::{FileSchema, FileView};
use vstd::prelude::*;
use vstd::string::{StrSliceExecFns, StringExecFns};

verus! {

/// Why the object store could not do what it was asked.
#[derive(Clone, Copy, Debug, PartialEq, Eq, Structural)]
pub enum StoreError {
    /// The engine could not be opened, read or written.
    EngineUnavailable,
    /// The bytes under the key are not those of a record.
    DecodeError,
}

/// The command that keeps `file` under `key`, in place of any record that
/// the key held.
pub fn store_file(key: String, file: &FileSchema) -> (command: EngineCommand)
    ensures
        command@ == (CommandView::Put { key: key@, value: record_bytes(file@) }),
        record_fits(file@),
{
    EngineCommand::Put { key, value: encode_record(file) }
}

/// What the engine's reply to a write means.
pub open spec fn write_outcome(reply: ReplyView) -> Result<(), StoreError> {
    match reply {
        ReplyView::Done => Ok(()),
        _ => Err(StoreError::EngineUnavailable),
    }
}

/// Takes the engine's reply to the command of `store_file`: the record is
/// kept exactly when the engine says that the write was done.
pub fn file_stored(reply: &EngineReply) -> (outcome: Result<(), StoreError>)
    ensures
        outcome == write_outcome(reply@),
{
    match reply {
        EngineReply::Done => Ok(()),
        _ => Err(StoreError::EngineUnavailable),
    }
}

/// The command that asks for the record under `key`.
pub fn retrieve_file(key: String) -> (command: EngineCommand)
    ensures
        command@ == (CommandView::Get { key: key@ }),
{
    EngineCommand::Get { key }
}

/// What the engine's reply to a read means: the record that the bytes stand
/// for, no record where the key holds nothing, and an error where the engine
/// failed or the bytes are not those of a well-formed record.
pub open spec fn read_outcome(reply: ReplyView) -> Result<Option<FileView>, StoreError> {
    match reply {
        ReplyView::Found(bytes) => match decoded(bytes) {
            Some(record) => Ok(Some(record)),
            None => Err(StoreError::DecodeError),
        },
        ReplyView::Missing => Ok(None),
        _ => Err(StoreError::EngineUnavailable),
    }
}

/// The view of what a read gave.
pub open spec fn read_view(outcome: Result<Option<FileSchema>, StoreError>) -> Result<
    Option<FileView>,
    StoreError,
> {
    match outcome {
        Ok(Some(record)) => Ok(Some(record@)),
        Ok(None) => Ok(None),
        Err(e) => Err(e),
    }
}

/// Takes the engine's reply to the command of `retrieve_file`.
pub fn file_retrieved(reply: &EngineReply) -> (outcome: Result<Option<FileSchema>, StoreError>)
    ensures
        read_view(outcome) == read_outcome(reply@),
        outcome matches Ok(Some(record)) ==> record.wf(),
{
    match reply {
        EngineReply::Found(bytes) => match decode_record(bytes.as_slice()) {
            Some(record) => Ok(Some(record)),
            None => Err(StoreError::DecodeError),
        },
        EngineReply::Missing => Ok(None),
        _ => Err(StoreError::EngineUnavailable),
    }
}

/// The command that drops the record under `key`. An engine that works
/// answers it in the same way whether the key holds a record or not.
pub fn delete_file(key: String) -> (command: EngineCommand)
    ensures
        command@ == (CommandView::Delete { key: key@ }),
{
    EngineCommand::Delete { key }
}

/// Takes the engine's reply to the command of `delete_file`: the key holds
/// nothing exactly when the engine says that the removal was done.
pub fn file_deleted(reply: &EngineReply) -> (outcome: Result<(), StoreError>)
    ensures
        outcome == write_outcome(reply@),
{
    match reply {
        EngineReply::Done => Ok(()),
        _ => Err(StoreError::EngineUnavailable),
    }
}

/// The name of the directory in which the engine keeps its files.
pub open spec fn directory_name() -> Seq<char> {
    ".byte_fortress"@
}

/// The directory in which the engine keeps its files: the directory of the
/// given name under `home`, or under the root where there is no home.
pub open spec fn data_directory_of(home: Option<Seq<char>>) -> Seq<char> {
    let base = match home {
        Some(h) => h,
        None => seq![SEPARATOR],
    };
    if base.len() == 0 || base.last() == SEPARATOR {
        base + directory_name()
    } else {
        base + seq![SEPARATOR] + directory_name()
    }
}

/// Tells where the engine keeps its files, given the user's home directory
/// if there is one. A separator is put between the two names unless the
/// home is empty or ends in one.
pub fn data_directory(home: Option<&str>) -> (directory: String)
    ensures
        directory@ == data_directory_of(
            match home {
                Some(h) => Some(h@),
                None => None,
            },
        ),
{
    proof {
        reveal_strlit("/");
    }
    let base: &str = match home {
        Some(h) => h,
        None => "/",
    };
    assert(home is None ==> base@ =~= seq![SEPARATOR]);
    let len = base.unicode_len();
    let mut directory = base.to_owned();
    if len > 0 && base.get_char(len - 1) != SEPARATOR {
        directory.append("/");
    }
    directory.append(".byte_fortress");
    assert(directory@ =~= data_directory_of(
        match home {
            Some(h) => Some(h@),
            None => None,
        },
    ));
    directory
}

} // verus!
