use byte_fortress::codec::{decode_record, encode_record, FORMAT};
use byte_fortress::record::{FileSchema, Metadata};

fn sample() -> FileSchema {
    FileSchema {
        id: [1, 2, 3, 4, 5, 6, 7, 8, 9, 10, 11, 12],
        name: "b".to_string(),
        size: 3,
        mime_type: "t".to_string(),
        binary_content: vec![7, 8, 9],
        created_at: "c".to_string(),
        updated_at: None,
        owner_id: [13, 14, 15, 16, 17, 18, 19, 20, 21, 22, 23, 24],
        storage_location: "/a".to_string(),
        full_file_path: "/a/b".to_string(),
        metadata: Metadata { description: Some("desc".to_string()), tags: vec!["x".to_string()] },
    }
}

fn number(x: u64) -> Vec<u8> {
    x.to_le_bytes().to_vec()
}

fn text(t: &str) -> Vec<u8> {
    let mut out = number(t.len() as u64);
    out.extend_from_slice(t.as_bytes());
    out
}

fn sample_bytes() -> Vec<u8> {
    let mut out = vec![1u8];
    out.extend_from_slice(&[1, 2, 3, 4, 5, 6, 7, 8, 9, 10, 11, 12]);
    out.extend_from_slice(&[13, 14, 15, 16, 17, 18, 19, 20, 21, 22, 23, 24]);
    out.extend_from_slice(&[3, 0, 0, 0, 0, 0, 0, 0]);
    out.extend_from_slice(&[1, 0, 0, 0, 0, 0, 0, 0, b'b']);
    out.extend_from_slice(&[1, 0, 0, 0, 0, 0, 0, 0, b't']);
    out.extend_from_slice(&[1, 0, 0, 0, 0, 0, 0, 0, b'c']);
    out.push(0);
    out.extend_from_slice(&[2, 0, 0, 0, 0, 0, 0, 0, b'/', b'a']);
    out.extend_from_slice(&[4, 0, 0, 0, 0, 0, 0, 0, b'/', b'a', b'/', b'b']);
    out.push(1);
    out.extend_from_slice(&[4, 0, 0, 0, 0, 0, 0, 0, b'd', b'e', b's', b'c']);
    out.extend_from_slice(&[1, 0, 0, 0, 0, 0, 0, 0]);
    out.extend_from_slice(&[1, 0, 0, 0, 0, 0, 0, 0, b'x']);
    out.extend_from_slice(&[3, 0, 0, 0, 0, 0, 0, 0, 7, 8, 9]);
    out
}

/// The bytes of `record` as the format lays them out, whether or not the
/// record is well formed.
fn lay_out(record: &FileSchema) -> Vec<u8> {
    let mut out = vec![FORMAT];
    out.extend_from_slice(&record.id);
    out.extend_from_slice(&record.owner_id);
    out.extend(number(record.size));
    out.extend(text(&record.name));
    out.extend(text(&record.mime_type));
    out.extend(text(&record.created_at));
    match &record.updated_at {
        Some(t) => {
            out.push(1);
            out.extend(text(t));
        }
        None => out.push(0),
    }
    out.extend(text(&record.storage_location));
    out.extend(text(&record.full_file_path));
    match &record.metadata.description {
        Some(t) => {
            out.push(1);
            out.extend(text(t));
        }
        None => out.push(0),
    }
    out.extend(number(record.metadata.tags.len() as u64));
    for tag in &record.metadata.tags {
        out.extend(text(tag));
    }
    out.extend(number(record.binary_content.len() as u64));
    out.extend_from_slice(&record.binary_content);
    out
}

#[test]
fn format_number_is_one() {
    assert_eq!(FORMAT, 1);
}

#[test]
fn record_is_written_field_by_field() {
    assert_eq!(encode_record(&sample()), sample_bytes());
}

#[test]
fn written_bytes_follow_the_layout() {
    let mut record = sample();
    record.updated_at = Some("later".to_string());
    record.metadata.description = None;
    record.metadata.tags = vec!["one".to_string(), "two".to_string(), "".to_string()];
    assert_eq!(encode_record(&record), lay_out(&record));
}

#[test]
fn written_record_is_read_back() {
    let record = sample();
    assert_eq!(decode_record(&encode_record(&record)), Some(record));
}

#[test]
fn expected_bytes_are_read_as_the_record() {
    assert_eq!(decode_record(&sample_bytes()), Some(sample()));
}

#[test]
fn record_with_every_optional_field_is_read_back() {
    let mut record = sample();
    record.updated_at = Some("2024-05-01 10:00:00 UTC".to_string());
    record.metadata.tags = vec!["tag1".to_string(), "tag2".to_string(), "третий".to_string()];
    record.mime_type = "application/octet-stream".to_string();
    assert_eq!(decode_record(&encode_record(&record)), Some(record));
}

#[test]
fn record_without_optional_fields_is_read_back() {
    let mut record = sample();
    record.updated_at = None;
    record.metadata = Metadata { description: None, tags: vec![] };
    assert_eq!(decode_record(&encode_record(&record)), Some(record));
}

#[test]
fn record_with_empty_content_is_read_back() {
    let mut record = sample();
    record.binary_content = vec![];
    record.size = 0;
    assert_eq!(decode_record(&encode_record(&record)), Some(record));
}

#[test]
fn record_with_every_byte_value_is_read_back() {
    let mut record = sample();
    record.binary_content = (0..=255u8).collect();
    record.size = 256;
    assert_eq!(decode_record(&encode_record(&record)), Some(record));
}

#[test]
fn no_bytes_are_no_record() {
    assert_eq!(decode_record(&[]), None);
}

#[test]
fn unknown_format_is_no_record() {
    let mut bytes = sample_bytes();
    bytes[0] = 2;
    assert_eq!(decode_record(&bytes), None);
    bytes[0] = 0;
    assert_eq!(decode_record(&bytes), None);
}

#[test]
fn every_cut_of_the_bytes_is_no_record() {
    let bytes = sample_bytes();
    for end in 0..bytes.len() {
        assert_eq!(decode_record(&bytes[..end]), None, "cut at {}", end);
    }
}

#[test]
fn bytes_behind_the_record_are_refused() {
    let mut bytes = sample_bytes();
    bytes.push(0);
    assert_eq!(decode_record(&bytes), None);
}

#[test]
fn text_that_is_not_utf8_is_refused() {
    let mut record = sample();
    record.mime_type = "ab".to_string();
    let mut bytes = lay_out(&record);
    let at = 1 + 12 + 12 + 8 + 9 + 8;
    assert_eq!(&bytes[at..at + 2], b"ab");
    bytes[at] = 0xff;
    bytes[at + 1] = 0xfe;
    assert_eq!(decode_record(&bytes), None);
}

#[test]
fn unknown_mark_of_an_optional_text_is_refused() {
    let mut bytes = sample_bytes();
    let at = 1 + 12 + 12 + 8 + 9 + 9 + 9;
    assert_eq!(bytes[at], 0);
    bytes[at] = 2;
    assert_eq!(decode_record(&bytes), None);
}

#[test]
fn size_that_is_not_the_length_of_the_content_is_refused() {
    let mut record = sample();
    record.size = 4;
    assert!(!record.is_well_formed());
    assert_eq!(decode_record(&lay_out(&record)), None);
}

#[test]
fn name_that_is_not_the_end_of_the_path_is_refused() {
    let mut record = sample();
    record.name = "c".to_string();
    assert!(!record.is_well_formed());
    assert_eq!(decode_record(&lay_out(&record)), None);
}

#[test]
fn location_that_is_not_the_front_of_the_path_is_refused() {
    let mut record = sample();
    record.storage_location = "/z".to_string();
    assert!(!record.is_well_formed());
    assert_eq!(decode_record(&lay_out(&record)), None);
}

#[test]
fn path_that_names_no_file_is_refused() {
    let mut record = sample();
    record.full_file_path = "noslash".to_string();
    record.name = "noslash".to_string();
    record.storage_location = "".to_string();
    assert!(!record.is_well_formed());
    assert_eq!(decode_record(&lay_out(&record)), None);
}

#[test]
fn length_beyond_the_input_is_refused() {
    let mut bytes = vec![FORMAT];
    bytes.extend_from_slice(&[0; 24]);
    bytes.extend(number(0));
    bytes.extend(number(u64::MAX));
    bytes.extend_from_slice(b"name");
    assert_eq!(decode_record(&bytes), None);
}

#[test]
fn count_of_tags_beyond_the_input_is_refused() {
    let mut record = sample();
    record.metadata.tags = vec![];
    let good = lay_out(&record);
    let tail = 8 + 8 + 3;
    let mut bytes = good[..good.len() - tail].to_vec();
    bytes.extend(number(u64::MAX));
    bytes.extend(number(3));
    bytes.extend_from_slice(&[7, 8, 9]);
    assert_eq!(decode_record(&good), Some(record));
    assert_eq!(decode_record(&bytes), None);
}

#[test]
fn well_formed_record_is_told_apart() {
    assert!(sample().is_well_formed());
}
