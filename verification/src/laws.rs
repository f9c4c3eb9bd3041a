//! What holds of the service on an engine that works: one that holds after
//! each command what `contents_after` says, and answers what `reply_to`
//! says.

use crate::codec::{
    decoded, lemma_decoded_record_bytes, lemma_parse_record, lemma_record_was_written,
    record_bytes, record_fits,
};
use crate::engine::{contents_after, reply_to, Contents};
use crate::file_path::{
    file_name_of, last_separator, lemma_last_separator, lemma_last_separator_is, names_a_file,
    path_parts, storage_location_of, SEPARATOR,
};
use crate::file_service::{
    delete_command, delete_outcome, fetch_command, fetch_outcome, new_record_view,
    store_command, store_fault, store_outcome, ServiceError,
};
use crate::object_store::{read_outcome, StoreError};
use crate::record::{FileView, ID_LEN};
use crate::wire::fits;
use vstd::prelude::*;

verus! {

/// What an engine that works holds after the service stored `record`.
pub open spec fn after_store(contents: Contents, record: FileView) -> Contents {
    contents_after(contents, store_command(record))
}

/// What an engine that works holds after the service deleted the file at
/// `full_path`.
pub open spec fn after_delete(contents: Contents, full_path: Seq<char>) -> Contents {
    contents_after(contents, delete_command(full_path))
}

/// What storing `record` gives on an engine that works.
pub open spec fn store_on(contents: Contents, record: FileView) -> Result<(), ServiceError> {
    store_outcome(reply_to(contents, store_command(record)))
}

/// What fetching the file at `full_path` gives on an engine that works.
pub open spec fn fetch_on(contents: Contents, full_path: Seq<char>) -> Result<
    Seq<u8>,
    ServiceError,
> {
    fetch_outcome(reply_to(contents, fetch_command(full_path)))
}

/// What deleting the file at `full_path` gives on an engine that works.
pub open spec fn delete_on(contents: Contents, full_path: Seq<char>) -> Result<
    (),
    ServiceError,
> {
    delete_outcome(reply_to(contents, delete_command(full_path)))
}

/// The record that the object store reads at `full_path` on an engine that
/// works.
pub open spec fn record_on(contents: Contents, full_path: Seq<char>) -> Result<
    Option<FileView>,
    StoreError,
> {
    read_outcome(reply_to(contents, fetch_command(full_path)))
}

/// The record of a request that is not refused is well formed; its size is
/// the length of its content.
pub proof fn law_new_record_is_well_formed(
    max_content_size: Option<u64>,
    full_path: Seq<char>,
    content_type: Seq<char>,
    content: Seq<u8>,
    id: Seq<u8>,
    owner_id: Seq<u8>,
    created_at: Seq<char>,
)
    requires
        store_fault(max_content_size, Some(full_path), Some(content_type), content.len()) is None,
        id.len() == ID_LEN,
        owner_id.len() == ID_LEN,
        fits(content.len()),
    ensures
        new_record_view(full_path, content_type, content, id, owner_id, created_at).wf(),
        new_record_view(full_path, content_type, content, id, owner_id, created_at).size
            == content.len(),
{
}

/// Round trip: storing a record succeeds, and fetching its full path
/// afterwards gives exactly the content that it was stored with.
pub proof fn law_store_then_fetch(contents: Contents, record: FileView)
    requires
        record.wf(),
        record_fits(record),
    ensures
        store_on(contents, record) == Ok::<(), ServiceError>(()),
        record_on(after_store(contents, record), record.full_file_path) == Ok::<
            Option<FileView>,
            StoreError,
        >(Some(record)),
        fetch_on(after_store(contents, record), record.full_file_path) == Ok::<
            Seq<u8>,
            ServiceError,
        >(record.binary_content),
{
    lemma_decoded_record_bytes(record);
}

/// Round trip, from the request: where a request to store a file is not
/// refused, fetching the same path afterwards gives exactly the bytes of
/// the request, whatever identifiers and time the record got.
pub proof fn law_stored_content_is_fetched(
    contents: Contents,
    max_content_size: Option<u64>,
    full_path: Seq<char>,
    content_type: Seq<char>,
    content: Seq<u8>,
    id: Seq<u8>,
    owner_id: Seq<u8>,
    created_at: Seq<char>,
)
    requires
        store_fault(max_content_size, Some(full_path), Some(content_type), content.len()) is None,
        id.len() == ID_LEN,
        owner_id.len() == ID_LEN,
        record_fits(new_record_view(full_path, content_type, content, id, owner_id, created_at)),
    ensures
        fetch_on(
            after_store(
                contents,
                new_record_view(full_path, content_type, content, id, owner_id, created_at),
            ),
            full_path,
        ) == Ok::<Seq<u8>, ServiceError>(content),
{
    let record = new_record_view(full_path, content_type, content, id, owner_id, created_at);
    law_new_record_is_well_formed(
        max_content_size,
        full_path,
        content_type,
        content,
        id,
        owner_id,
        created_at,
    );
    law_store_then_fetch(contents, record);
}

/// Overwrite: after two records were stored under one full path, the
/// engine holds what it would hold had only the second been stored, so one
/// record is kept under the path; it is the second, and fetching the path
/// gives its content.
pub proof fn law_second_store_wins(contents: Contents, first: FileView, second: FileView)
    requires
        first.wf(),
        second.wf(),
        record_fits(first),
        record_fits(second),
        first.full_file_path == second.full_file_path,
    ensures
        after_store(after_store(contents, first), second) == after_store(contents, second),
        record_on(after_store(after_store(contents, first), second), second.full_file_path)
            == Ok::<Option<FileView>, StoreError>(Some(second)),
        fetch_on(after_store(after_store(contents, first), second), second.full_file_path)
            == Ok::<Seq<u8>, ServiceError>(second.binary_content),
{
    assert(after_store(after_store(contents, first), second) =~= after_store(contents, second));
    law_store_then_fetch(contents, second);
}

/// Storing under one path leaves what every other path holds as it was.
pub proof fn law_store_touches_one_path(contents: Contents, record: FileView, other: Seq<char>)
    requires
        other != record.full_file_path,
    ensures
        record_on(after_store(contents, record), other) == record_on(contents, other),
        fetch_on(after_store(contents, record), other) == fetch_on(contents, other),
{
}

/// Delete, then fetch: deleting a path succeeds, and fetching it
/// afterwards finds no record, whatever the path held before.
pub proof fn law_delete_then_fetch(contents: Contents, full_path: Seq<char>)
    ensures
        delete_on(contents, full_path) == Ok::<(), ServiceError>(()),
        record_on(after_delete(contents, full_path), full_path) == Ok::<
            Option<FileView>,
            StoreError,
        >(None),
        fetch_on(after_delete(contents, full_path), full_path) == Err::<Seq<u8>, ServiceError>(
            ServiceError::NotFoundOrUnavailable,
        ),
{
}

/// Deleting a path that holds nothing succeeds, and leaves the engine as
/// it was; so deleting a path twice is deleting it once.
pub proof fn law_delete_of_nothing(contents: Contents, full_path: Seq<char>)
    requires
        !contents.dom().contains(full_path),
    ensures
        delete_on(contents, full_path) == Ok::<(), ServiceError>(()),
        after_delete(contents, full_path) == contents,
{
    assert(contents.remove(full_path) =~= contents);
}

/// Deleting a path twice gives what deleting it once gives.
pub proof fn law_delete_twice(contents: Contents, full_path: Seq<char>)
    ensures
        delete_on(after_delete(contents, full_path), full_path) == Ok::<(), ServiceError>(()),
        after_delete(after_delete(contents, full_path), full_path) == after_delete(
            contents,
            full_path,
        ),
{
    law_delete_of_nothing(after_delete(contents, full_path), full_path);
}

/// A path that does not name a file is refused as an invalid path, where
/// the request holds a path and a content type at all.
pub proof fn law_path_rejection(
    max_content_size: Option<u64>,
    full_path: Seq<char>,
    content_type: Seq<char>,
    size: nat,
)
    requires
        full_path.len() > 0,
        content_type.len() > 0,
        !names_a_file(full_path),
    ensures
        store_fault(max_content_size, Some(full_path), Some(content_type), size) == Some(
            ServiceError::InvalidPath,
        ),
{
}

/// The bytes that stand for a record are exactly the bytes of that record,
/// well formed: nothing else is read as it, and it is read from nothing
/// else.
pub proof fn law_decoded_iff_written(input: Seq<u8>, record: FileView)
    ensures
        decoded(input) == Some(record) <==> record.wf() && record_fits(record) && record_bytes(
            record,
        ) == input,
{
    if decoded(input) == Some(record) {
        lemma_record_was_written(input);
    }
    if record.wf() && record_fits(record) && record_bytes(record) == input {
        lemma_parse_record(record);
    }
}

/// The parts of a path that names a file are never empty, the name holds no
/// separator, and, below the root, location, separator and name in this
/// order give the path again.
pub proof fn law_parts_give_the_path(path: Seq<char>)
    requires
        names_a_file(path),
    ensures
        file_name_of(path).len() > 0,
        storage_location_of(path).len() > 0,
        !file_name_of(path).contains(SEPARATOR),
        last_separator(path) > 0 ==> path == storage_location_of(path) + seq![SEPARATOR]
            + file_name_of(path),
        last_separator(path) == 0 ==> path == storage_location_of(path) + file_name_of(path),
{
    lemma_last_separator(path);
    let cut = last_separator(path);
    let name = file_name_of(path);
    assert forall|j: int| 0 <= j < name.len() implies name[j] != SEPARATOR by {
        assert(name[j] == path[cut + 1 + j]);
    }
    if cut > 0 {
        assert(path =~= storage_location_of(path) + seq![SEPARATOR] + file_name_of(path));
    } else {
        assert(path =~= storage_location_of(path) + file_name_of(path));
    }
}

/// A directory, a separator and a name, in this order, make a path that
/// splits into that directory and that name, where neither is empty and the
/// name holds no separator. So a path splits in one way only.
pub proof fn law_joined_parts_split_back(location: Seq<char>, name: Seq<char>)
    requires
        location.len() > 0,
        name.len() > 0,
        !name.contains(SEPARATOR),
    ensures
        path_parts(location + seq![SEPARATOR] + name) == Some((location, name)),
{
    let path = location + seq![SEPARATOR] + name;
    let cut = location.len() as int;
    assert forall|j: int| cut < j < path.len() implies path[j] != SEPARATOR by {
        assert(path[j] == name[j - cut - 1]);
        assert(name.contains(name[j - cut - 1]));
    }
    lemma_last_separator_is(path, cut);
    assert(path.take(cut) =~= location);
    assert(path.skip(cut + 1) =~= name);
}

/// A separator and a name, in this order, make a path that names a file
/// under the root, where the name is not empty and holds no separator.
pub proof fn law_root_and_name_split_back(name: Seq<char>)
    requires
        name.len() > 0,
        !name.contains(SEPARATOR),
    ensures
        path_parts(seq![SEPARATOR] + name) == Some((seq![SEPARATOR], name)),
{
    let path = seq![SEPARATOR] + name;
    assert forall|j: int| 0 < j < path.len() implies path[j] != SEPARATOR by {
        assert(path[j] == name[j - 1]);
        assert(name.contains(name[j - 1]));
    }
    lemma_last_separator_is(path, 0);
    assert(path.take(1) =~= seq![SEPARATOR]);
    assert(path.skip(1) =~= name);
}

} // verus!
