//! The bytes that stand for a record in the engine, and how they are read
//! back.

use crate::record::{FileSchema, FileView, Metadata, MetadataView, ID_LEN};
use crate::wire::{
    fits, lemma_id_was_written, lemma_number_was_written, lemma_optional_text_was_written,
    lemma_parse_id, lemma_parse_number, lemma_parse_optional_text, lemma_parse_run,
    lemma_parse_text, lemma_parse_texts, lemma_run_was_written, lemma_text_was_written,
    lemma_texts_were_written, number_bytes, optional_text_bytes, optional_text_fits, parse_id,
    parse_number, parse_optional_text, parse_run, parse_text, parse_texts, read_id,
    read_number, read_optional_text, read_run, read_text, read_texts, rest, run_bytes,
    text_bytes, text_fits, texts_bytes, texts_fit, value, write_number, write_optional_text,
    write_run, write_text, write_texts,
};
use vstd::prelude::*;
use vstd::seq_lib::lemma_concat_associative;
use vstd::slice::slice_to_vec;

verus! {

/// The byte that opens every written record: the number of this format.
pub const FORMAT: u8 = 1;

/// Whether every length in a record can be written as a number. It holds of
/// the view of every record in memory.
pub open spec fn record_fits(record: FileView) -> bool {
    &&& text_fits(record.name)
    &&& text_fits(record.mime_type)
    &&& text_fits(record.created_at)
    &&& optional_text_fits(record.updated_at)
    &&& text_fits(record.storage_location)
    &&& text_fits(record.full_file_path)
    &&& optional_text_fits(record.metadata.description)
    &&& texts_fit(record.metadata.tags)
    &&& fits(record.binary_content.len())
}

/// The bytes of a record: the format's number, the two identifiers, the
/// size, and then the other fields, the content last.
pub open spec fn record_bytes(record: FileView) -> Seq<u8> {
    seq![FORMAT] + record.id + record.owner_id + number_bytes(record.size) + text_bytes(
        record.name,
    ) + text_bytes(record.mime_type) + text_bytes(record.created_at) + optional_text_bytes(
        record.updated_at,
    ) + text_bytes(record.storage_location) + text_bytes(record.full_file_path)
        + optional_text_bytes(record.metadata.description) + texts_bytes(record.metadata.tags)
        + run_bytes(record.binary_content)
}

/// Reads the fields of a record from `input`, which must hold nothing else.
pub open spec fn parse_record(input: Seq<u8>) -> Option<FileView> {
    let id = parse_id(input.skip(1));
    let owner_id = parse_id(rest(id));
    let size = parse_number(rest(owner_id));
    let name = parse_text(rest(size));
    let mime_type = parse_text(rest(name));
    let created_at = parse_text(rest(mime_type));
    let updated_at = parse_optional_text(rest(created_at));
    let storage_location = parse_text(rest(updated_at));
    let full_file_path = parse_text(rest(storage_location));
    let description = parse_optional_text(rest(full_file_path));
    let tags = parse_texts(rest(description));
    let content = parse_run(rest(tags));
    if input.len() > 0 && input[0] == FORMAT && id is Some && owner_id is Some && size is Some
        && name is Some && mime_type is Some && created_at is Some && updated_at is Some
        && storage_location is Some && full_file_path is Some && description is Some
        && tags is Some && content is Some && rest(content).len() == 0 {
        Some(
            FileView {
                id: value(id),
                name: value(name),
                size: value(size),
                mime_type: value(mime_type),
                binary_content: value(content),
                created_at: value(created_at),
                updated_at: value(updated_at),
                owner_id: value(owner_id),
                storage_location: value(storage_location),
                full_file_path: value(full_file_path),
                metadata: MetadataView { description: value(description), tags: value(tags) },
            },
        )
    } else {
        None
    }
}

/// The record that `input` stands for: its fields as they were written,
/// where they make a well-formed record; `None` for any other bytes.
pub open spec fn decoded(input: Seq<u8>) -> Option<FileView> {
    match parse_record(input) {
        Some(record) => if record.wf() {
            Some(record)
        } else {
            None
        },
        None => None,
    }
}

/// The fields of a record that was written are read back.
pub proof fn lemma_parse_record(record: FileView)
    requires
        record.id.len() == ID_LEN,
        record.owner_id.len() == ID_LEN,
        record_fits(record),
    ensures
        parse_record(record_bytes(record)) == Some(record),
{
    let input = record_bytes(record);
    let e1 = record.id;
    let e2 = record.owner_id;
    let e3 = number_bytes(record.size);
    let e4 = text_bytes(record.name);
    let e5 = text_bytes(record.mime_type);
    let e6 = text_bytes(record.created_at);
    let e7 = optional_text_bytes(record.updated_at);
    let e8 = text_bytes(record.storage_location);
    let e9 = text_bytes(record.full_file_path);
    let e10 = optional_text_bytes(record.metadata.description);
    let e11 = texts_bytes(record.metadata.tags);
    let e12 = run_bytes(record.binary_content);
    let end = Seq::<u8>::empty();
    let b12 = e12 + end;
    let b11 = e11 + b12;
    let b10 = e10 + b11;
    let b9 = e9 + b10;
    let b8 = e8 + b9;
    let b7 = e7 + b8;
    let b6 = e6 + b7;
    let b5 = e5 + b6;
    let b4 = e4 + b5;
    let b3 = e3 + b4;
    let b2 = e2 + b3;
    let b1 = e1 + b2;
    let a0 = seq![FORMAT];
    let a1 = a0 + e1;
    let a2 = a1 + e2;
    let a3 = a2 + e3;
    let a4 = a3 + e4;
    let a5 = a4 + e5;
    let a6 = a5 + e6;
    let a7 = a6 + e7;
    let a8 = a7 + e8;
    let a9 = a8 + e9;
    let a10 = a9 + e10;
    let a11 = a10 + e11;
    let a12 = a11 + e12;
    assert(input == a12);
    assert(a12 =~= a12 + end);
    lemma_concat_associative(a11, e12, end);
    lemma_concat_associative(a10, e11, b12);
    lemma_concat_associative(a9, e10, b11);
    lemma_concat_associative(a8, e9, b10);
    lemma_concat_associative(a7, e8, b9);
    lemma_concat_associative(a6, e7, b8);
    lemma_concat_associative(a5, e6, b7);
    lemma_concat_associative(a4, e5, b6);
    lemma_concat_associative(a3, e4, b5);
    lemma_concat_associative(a2, e3, b4);
    lemma_concat_associative(a1, e2, b3);
    lemma_concat_associative(a0, e1, b2);
    assert(input == a0 + b1);
    assert(input.skip(1) =~= b1);
    assert(input[0] == FORMAT);
    lemma_parse_id(record.id, b2);
    lemma_parse_id(record.owner_id, b3);
    lemma_parse_number(record.size, b4);
    lemma_parse_text(record.name, b5);
    lemma_parse_text(record.mime_type, b6);
    lemma_parse_text(record.created_at, b7);
    lemma_parse_optional_text(record.updated_at, b8);
    lemma_parse_text(record.storage_location, b9);
    lemma_parse_text(record.full_file_path, b10);
    lemma_parse_optional_text(record.metadata.description, b11);
    lemma_parse_texts(record.metadata.tags, b12);
    lemma_parse_run(record.binary_content, end);
    assert(parse_record(input)->0 =~= record);
}

/// A record whose fields were read had been written as the input.
pub proof fn lemma_record_was_written(input: Seq<u8>)
    requires
        parse_record(input) is Some,
    ensures
        parse_record(input)->0.id.len() == ID_LEN,
        parse_record(input)->0.owner_id.len() == ID_LEN,
        record_fits(parse_record(input)->0),
        record_bytes(parse_record(input)->0) == input,
{
    let record = parse_record(input)->0;
    let b1 = input.skip(1);
    let b2 = rest(parse_id(b1));
    let b3 = rest(parse_id(b2));
    let b4 = rest(parse_number(b3));
    let b5 = rest(parse_text(b4));
    let b6 = rest(parse_text(b5));
    let b7 = rest(parse_text(b6));
    let b8 = rest(parse_optional_text(b7));
    let b9 = rest(parse_text(b8));
    let b10 = rest(parse_text(b9));
    let b11 = rest(parse_optional_text(b10));
    let b12 = rest(parse_texts(b11));
    let end = rest(parse_run(b12));
    lemma_id_was_written(b1);
    lemma_id_was_written(b2);
    lemma_number_was_written(b3);
    lemma_text_was_written(b4);
    lemma_text_was_written(b5);
    lemma_text_was_written(b6);
    lemma_optional_text_was_written(b7);
    lemma_text_was_written(b8);
    lemma_text_was_written(b9);
    lemma_optional_text_was_written(b10);
    lemma_texts_were_written(b11);
    lemma_run_was_written(b12);
    let e1 = record.id;
    let e2 = record.owner_id;
    let e3 = number_bytes(record.size);
    let e4 = text_bytes(record.name);
    let e5 = text_bytes(record.mime_type);
    let e6 = text_bytes(record.created_at);
    let e7 = optional_text_bytes(record.updated_at);
    let e8 = text_bytes(record.storage_location);
    let e9 = text_bytes(record.full_file_path);
    let e10 = optional_text_bytes(record.metadata.description);
    let e11 = texts_bytes(record.metadata.tags);
    let e12 = run_bytes(record.binary_content);
    let a0 = seq![FORMAT];
    let a1 = a0 + e1;
    let a2 = a1 + e2;
    let a3 = a2 + e3;
    let a4 = a3 + e4;
    let a5 = a4 + e5;
    let a6 = a5 + e6;
    let a7 = a6 + e7;
    let a8 = a7 + e8;
    let a9 = a8 + e9;
    let a10 = a9 + e10;
    let a11 = a10 + e11;
    let a12 = a11 + e12;
    assert(input =~= a0 + b1);
    lemma_concat_associative(a0, e1, b2);
    lemma_concat_associative(a1, e2, b3);
    lemma_concat_associative(a2, e3, b4);
    lemma_concat_associative(a3, e4, b5);
    lemma_concat_associative(a4, e5, b6);
    lemma_concat_associative(a5, e6, b7);
    lemma_concat_associative(a6, e7, b8);
    lemma_concat_associative(a7, e8, b9);
    lemma_concat_associative(a8, e9, b10);
    lemma_concat_associative(a9, e10, b11);
    lemma_concat_associative(a10, e11, b12);
    lemma_concat_associative(a11, e12, end);
    assert(input == a12 + end);
    assert(a12 + end =~= a12);
}

/// A well-formed record that was written is read back: the round trip
/// through the bytes loses nothing.
pub proof fn lemma_decoded_record_bytes(record: FileView)
    requires
        record.wf(),
        record_fits(record),
    ensures
        decoded(record_bytes(record)) == Some(record),
{
    lemma_parse_record(record);
}

/// Writes a record as the bytes that the engine keeps for it.
pub fn encode_record(record: &FileSchema) -> (bytes: Vec<u8>)
    ensures
        bytes@ == record_bytes(record@),
        record_fits(record@),
        parse_record(bytes@) == Some(record@),
{
    let mut out: Vec<u8> = Vec::new();
    out.push(FORMAT);
    out.extend_from_slice(record.id.as_slice());
    out.extend_from_slice(record.owner_id.as_slice());
    write_number(&mut out, record.size);
    write_text(&mut out, record.name.as_str());
    write_text(&mut out, record.mime_type.as_str());
    write_text(&mut out, record.created_at.as_str());
    write_optional_text(&mut out, &record.updated_at);
    write_text(&mut out, record.storage_location.as_str());
    write_text(&mut out, record.full_file_path.as_str());
    write_optional_text(&mut out, &record.metadata.description);
    write_texts(&mut out, &record.metadata.tags);
    write_run(&mut out, record.binary_content.as_slice());
    proof {
        assert(out@ =~= record_bytes(record@));
        lemma_parse_record(record@);
    }
    out
}

/// Reads back the record that `input` stands for: the well-formed record
/// whose bytes are `input`. Any other bytes give `None`.
pub fn decode_record(input: &[u8]) -> (record: Option<FileSchema>)
    ensures
        match record {
            Some(r) => decoded(input@) == Some(r@) && r.wf() && record_bytes(r@) == input@,
            None => decoded(input@) is None,
        },
{
    if input.len() == 0 || input[0] != FORMAT {
        return None;
    }
    let (id, at) = match read_id(input, 1) {
        Some(read) => read,
        None => { return None; },
    };
    let (owner_id, at) = match read_id(input, at) {
        Some(read) => read,
        None => { return None; },
    };
    let (size, at) = match read_number(input, at) {
        Some(read) => read,
        None => { return None; },
    };
    let (name, at) = match read_text(input, at) {
        Some(read) => read,
        None => { return None; },
    };
    let (mime_type, at) = match read_text(input, at) {
        Some(read) => read,
        None => { return None; },
    };
    let (created_at, at) = match read_text(input, at) {
        Some(read) => read,
        None => { return None; },
    };
    let (updated_at, at) = match read_optional_text(input, at) {
        Some(read) => read,
        None => { return None; },
    };
    let (storage_location, at) = match read_text(input, at) {
        Some(read) => read,
        None => { return None; },
    };
    let (full_file_path, at) = match read_text(input, at) {
        Some(read) => read,
        None => { return None; },
    };
    let (description, at) = match read_optional_text(input, at) {
        Some(read) => read,
        None => { return None; },
    };
    let (tags, at) = match read_texts(input, at) {
        Some(read) => read,
        None => { return None; },
    };
    let (content, at) = match read_run(input, at) {
        Some(read) => read,
        None => { return None; },
    };
    if at != input.len() {
        return None;
    }
    let record = FileSchema {
        id,
        name,
        size,
        mime_type,
        binary_content: slice_to_vec(content),
        created_at,
        updated_at,
        owner_id,
        storage_location,
        full_file_path,
        metadata: Metadata { description, tags },
    };
    proof {
        assert(parse_record(input@)->0 =~= record@);
        lemma_record_was_written(input@);
    }
    if record.is_well_formed() {
        Some(record)
    } else {
        None
    }
}

} // verus!
