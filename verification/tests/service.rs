use byte_fortress::codec::{decode_record, encode_record};
use byte_fortress::engine::{EngineCommand, EngineReply};
use byte_fortress::file_service::{
    begin_delete, begin_fetch, begin_store, finish_delete, finish_fetch, finish_store,
    new_record, replace, Acknowledgment, RequestFault, ServiceConfig, ServiceError,
    DEFAULT_MAX_CONTENT_SIZE,
};
use byte_fortress::object_store::{
    delete_file, file_deleted, file_retrieved, file_stored, retrieve_file, store_file,
    StoreError,
};
use byte_fortress::record::{FileSchema, Metadata, ID_LEN};
use std::collections::BTreeMap;

/// An engine that works, kept in memory.
struct Engine {
    held: BTreeMap<String, Vec<u8>>,
}

impl Engine {
    fn new() -> Engine {
        Engine { held: BTreeMap::new() }
    }

    fn run(&mut self, command: EngineCommand) -> EngineReply {
        match command {
            EngineCommand::Put { key, value } => {
                self.held.insert(key, value);
                EngineReply::Done
            }
            EngineCommand::Get { key } => match self.held.get(&key) {
                Some(value) => EngineReply::Found(value.clone()),
                None => EngineReply::Missing,
            },
            EngineCommand::Delete { key } => {
                self.held.remove(&key);
                EngineReply::Done
            }
        }
    }
}

fn store(
    engine: &mut Engine,
    config: &ServiceConfig,
    path: &str,
    content_type: &str,
    content: Vec<u8>,
) -> Result<FileSchema, ServiceError> {
    let (record, command) = begin_store(config, Some(path), Some(content_type), content)?;
    let reply = engine.run(command);
    finish_store(record, &reply)
}

fn fetch(engine: &mut Engine, path: &str) -> Result<Vec<u8>, ServiceError> {
    let command = begin_fetch(Some(path))?;
    let reply = engine.run(command);
    finish_fetch(&reply)
}

fn delete(engine: &mut Engine, path: &str) -> Result<(), ServiceError> {
    let command = begin_delete(Some(path))?;
    let reply = engine.run(command);
    finish_delete(&reply)
}

fn bytes_of_length(len: usize) -> Vec<u8> {
    (0..len).map(|i| (i % 251) as u8).collect()
}

fn missing_path() -> ServiceError {
    ServiceError::InvalidRequest(RequestFault::FullPathMissing)
}

fn missing_content_type() -> ServiceError {
    ServiceError::InvalidRequest(RequestFault::ContentTypeMissing)
}

#[test]
fn stored_report_is_described_and_fetched() {
    let mut engine = Engine::new();
    let content = bytes_of_length(1024);
    let record = store(
        &mut engine,
        &ServiceConfig::default(),
        "/docs/report.pdf",
        "application/pdf",
        content.clone(),
    )
    .unwrap();
    assert_eq!(record.name, "report.pdf");
    assert_eq!(record.storage_location, "/docs");
    assert_eq!(record.size, 1024);
    assert_eq!(record.mime_type, "application/pdf");
    assert_eq!(record.full_file_path, "/docs/report.pdf");
    assert_eq!(record.binary_content, content);
    assert_eq!(record.updated_at, None);
    assert_eq!(fetch(&mut engine, "/docs/report.pdf"), Ok(content));
}

#[test]
fn content_above_the_ceiling_is_refused_and_not_kept() {
    let mut engine = Engine::new();
    let config = ServiceConfig { max_content_size: Some(10_000_000) };
    let stored = store(&mut engine, &config, "/big/file.bin", "application/octet-stream", vec![0; 11_000_000]);
    assert_eq!(stored, Err(ServiceError::PayloadTooLarge));
    assert!(engine.held.is_empty());
    assert_eq!(fetch(&mut engine, "/big/file.bin"), Err(ServiceError::NotFoundOrUnavailable));
}

#[test]
fn content_at_the_ceiling_is_accepted() {
    let config = ServiceConfig { max_content_size: Some(4) };
    let mut engine = Engine::new();
    assert!(store(&mut engine, &config, "/a/b", "text/plain", vec![1, 2, 3, 4]).is_ok());
    assert_eq!(
        store(&mut engine, &config, "/a/c", "text/plain", vec![1, 2, 3, 4, 5]),
        Err(ServiceError::PayloadTooLarge)
    );
    assert!(store(&mut engine, &config, "/a/d", "text/plain", vec![]).is_ok());
}

#[test]
fn without_a_ceiling_any_size_is_accepted() {
    let config = ServiceConfig { max_content_size: None };
    let mut engine = Engine::new();
    let content = vec![9u8; 10_000_001];
    let record = store(&mut engine, &config, "/big/file.bin", "application/octet-stream", content).unwrap();
    assert_eq!(record.size, 10_000_001);
}

#[test]
fn default_ceiling_is_ten_million_bytes() {
    assert_eq!(DEFAULT_MAX_CONTENT_SIZE, 10_000_000);
    assert_eq!(ServiceConfig::default().max_content_size, Some(10_000_000));
}

#[test]
fn path_without_directory_is_refused_and_not_kept() {
    let mut engine = Engine::new();
    let stored = store(&mut engine, &ServiceConfig::default(), "noslash", "text/plain", vec![1]);
    assert_eq!(stored, Err(ServiceError::InvalidPath));
    assert!(engine.held.is_empty());
}

#[test]
fn path_without_name_is_refused_and_not_kept() {
    let mut engine = Engine::new();
    let stored = store(&mut engine, &ServiceConfig::default(), "/", "text/plain", vec![1]);
    assert_eq!(stored, Err(ServiceError::InvalidPath));
    let stored = store(&mut engine, &ServiceConfig::default(), "/docs/", "text/plain", vec![1]);
    assert_eq!(stored, Err(ServiceError::InvalidPath));
    assert!(engine.held.is_empty());
}

#[test]
fn store_without_a_path_is_refused() {
    let config = ServiceConfig::default();
    assert_eq!(begin_store(&config, None, Some("text/plain"), vec![1]).err(), Some(missing_path()));
    assert_eq!(begin_store(&config, Some(""), Some("text/plain"), vec![1]).err(), Some(missing_path()));
}

#[test]
fn store_without_a_content_type_is_refused() {
    let config = ServiceConfig::default();
    assert_eq!(begin_store(&config, Some("/a/b"), None, vec![1]).err(), Some(missing_content_type()));
    assert_eq!(begin_store(&config, Some("/a/b"), Some(""), vec![1]).err(), Some(missing_content_type()));
}

#[test]
fn first_fault_of_a_request_is_reported() {
    let config = ServiceConfig { max_content_size: Some(1) };
    assert_eq!(begin_store(&config, None, None, vec![1, 2]).err(), Some(missing_path()));
    assert_eq!(begin_store(&config, Some("noslash"), None, vec![1, 2]).err(), Some(missing_content_type()));
    assert_eq!(
        begin_store(&config, Some("noslash"), Some("text/plain"), vec![1, 2]).err(),
        Some(ServiceError::InvalidPath)
    );
    assert_eq!(
        begin_store(&config, Some("/a/b"), Some("text/plain"), vec![1, 2]).err(),
        Some(ServiceError::PayloadTooLarge)
    );
}

#[test]
fn store_gives_the_command_that_keeps_the_record() {
    let (record, command) =
        begin_store(&ServiceConfig::default(), Some("/a/b.txt"), Some("text/plain"), vec![1, 2, 3]).unwrap();
    assert_eq!(
        command,
        EngineCommand::Put { key: "/a/b.txt".to_string(), value: encode_record(&record) }
    );
    assert!(record.is_well_formed());
    assert_eq!(record.id.len(), ID_LEN);
    assert_eq!(record.owner_id.len(), ID_LEN);
}

#[test]
fn new_record_carries_the_fixed_descriptive_data() {
    let (record, _) =
        begin_store(&ServiceConfig::default(), Some("/a/b.txt"), Some("text/plain"), vec![]).unwrap();
    assert_eq!(record.metadata, Metadata::placeholder());
    assert_eq!(record.metadata.description, Some("File description".to_string()));
    assert_eq!(record.metadata.tags, vec!["tag1".to_string(), "tag2".to_string()]);
}

#[test]
fn new_record_takes_what_it_is_handed() {
    let record = new_record(
        &ServiceConfig::default(),
        Some("/photos/2024/cat.png"),
        Some("image/png"),
        vec![5, 6],
        [1; 12],
        [2; 12],
        "2024-05-01 10:00:00 UTC".to_string(),
    )
    .unwrap();
    assert_eq!(
        record,
        FileSchema {
            id: [1; 12],
            name: "cat.png".to_string(),
            size: 2,
            mime_type: "image/png".to_string(),
            binary_content: vec![5, 6],
            created_at: "2024-05-01 10:00:00 UTC".to_string(),
            updated_at: None,
            owner_id: [2; 12],
            storage_location: "/photos/2024".to_string(),
            full_file_path: "/photos/2024/cat.png".to_string(),
            metadata: Metadata {
                description: Some("File description".to_string()),
                tags: vec!["tag1".to_string(), "tag2".to_string()],
            },
        }
    );
}

#[test]
fn new_record_refuses_what_store_refuses() {
    let config = ServiceConfig { max_content_size: Some(1) };
    let made = |path: Option<&str>, content_type: Option<&str>, content: Vec<u8>| {
        new_record(&config, path, content_type, content, [0; 12], [0; 12], String::new()).err()
    };
    assert_eq!(made(None, Some("t"), vec![]), Some(missing_path()));
    assert_eq!(made(Some("/a/b"), None, vec![]), Some(missing_content_type()));
    assert_eq!(made(Some("/"), Some("t"), vec![]), Some(ServiceError::InvalidPath));
    assert_eq!(made(Some("/a/b"), Some("t"), vec![1, 2]), Some(ServiceError::PayloadTooLarge));
    assert_eq!(made(Some("/a/b"), Some("t"), vec![1]), None);
}

#[test]
fn size_is_the_length_of_the_content() {
    let mut engine = Engine::new();
    for len in [0usize, 1, 7, 4096] {
        let record =
            store(&mut engine, &ServiceConfig::default(), "/sizes/file", "text/plain", bytes_of_length(len))
                .unwrap();
        assert_eq!(record.size, len as u64);
        assert_eq!(record.size, record.binary_content.len() as u64);
    }
}

#[test]
fn stored_bytes_are_fetched_unchanged() {
    let mut engine = Engine::new();
    let content: Vec<u8> = (0..=255u8).rev().collect();
    store(&mut engine, &ServiceConfig::default(), "/raw/all.bin", "application/octet-stream", content.clone())
        .unwrap();
    assert_eq!(fetch(&mut engine, "/raw/all.bin"), Ok(content));
}

#[test]
fn second_store_replaces_the_first() {
    let mut engine = Engine::new();
    let config = ServiceConfig::default();
    store(&mut engine, &config, "/notes/today.txt", "text/plain", b"first".to_vec()).unwrap();
    let second = store(&mut engine, &config, "/notes/today.txt", "text/markdown", b"second".to_vec()).unwrap();
    assert_eq!(engine.held.len(), 1);
    assert_eq!(fetch(&mut engine, "/notes/today.txt"), Ok(b"second".to_vec()));
    assert_eq!(decode_record(&engine.held["/notes/today.txt"]), Some(second));
}

#[test]
fn files_at_different_paths_do_not_touch_each_other() {
    let mut engine = Engine::new();
    let config = ServiceConfig::default();
    store(&mut engine, &config, "/a/one", "text/plain", b"1".to_vec()).unwrap();
    store(&mut engine, &config, "/a/two", "text/plain", b"2".to_vec()).unwrap();
    assert_eq!(fetch(&mut engine, "/a/one"), Ok(b"1".to_vec()));
    assert_eq!(fetch(&mut engine, "/a/two"), Ok(b"2".to_vec()));
    delete(&mut engine, "/a/one").unwrap();
    assert_eq!(fetch(&mut engine, "/a/two"), Ok(b"2".to_vec()));
}

#[test]
fn deleted_file_is_not_fetched() {
    let mut engine = Engine::new();
    store(&mut engine, &ServiceConfig::default(), "/tmp/gone.txt", "text/plain", b"old".to_vec()).unwrap();
    assert_eq!(delete(&mut engine, "/tmp/gone.txt"), Ok(()));
    assert_eq!(fetch(&mut engine, "/tmp/gone.txt"), Err(ServiceError::NotFoundOrUnavailable));
    assert!(engine.held.is_empty());
}

#[test]
fn deleting_what_is_not_there_succeeds() {
    let mut engine = Engine::new();
    assert_eq!(delete(&mut engine, "/never/stored"), Ok(()));
    assert_eq!(delete(&mut engine, "/never/stored"), Ok(()));
    store(&mut engine, &ServiceConfig::default(), "/once/stored", "text/plain", vec![1]).unwrap();
    assert_eq!(delete(&mut engine, "/once/stored"), Ok(()));
    assert_eq!(delete(&mut engine, "/once/stored"), Ok(()));
}

#[test]
fn fetch_of_what_was_never_stored_fails() {
    let mut engine = Engine::new();
    assert_eq!(fetch(&mut engine, "/never/stored"), Err(ServiceError::NotFoundOrUnavailable));
}

#[test]
fn fetch_and_delete_need_a_path() {
    assert_eq!(begin_fetch(None), Err(missing_path()));
    assert_eq!(begin_fetch(Some("")), Err(missing_path()));
    assert_eq!(begin_delete(None), Err(missing_path()));
    assert_eq!(begin_delete(Some("")), Err(missing_path()));
}

#[test]
fn fetch_and_delete_name_the_key() {
    assert_eq!(begin_fetch(Some("noslash")), Ok(EngineCommand::Get { key: "noslash".to_string() }));
    assert_eq!(begin_delete(Some("/a/b")), Ok(EngineCommand::Delete { key: "/a/b".to_string() }));
}

#[test]
fn failed_engine_fails_every_operation() {
    let (record, _) =
        begin_store(&ServiceConfig::default(), Some("/a/b"), Some("text/plain"), vec![1]).unwrap();
    assert_eq!(finish_store(record, &EngineReply::Failed), Err(ServiceError::StoreFailed));
    assert_eq!(finish_fetch(&EngineReply::Failed), Err(ServiceError::NotFoundOrUnavailable));
    assert_eq!(finish_delete(&EngineReply::Failed), Err(ServiceError::DeleteFailed));
}

#[test]
fn reply_of_another_kind_is_a_failure() {
    let (record, _) =
        begin_store(&ServiceConfig::default(), Some("/a/b"), Some("text/plain"), vec![1]).unwrap();
    assert_eq!(finish_store(record.clone(), &EngineReply::Missing), Err(ServiceError::StoreFailed));
    assert_eq!(finish_store(record, &EngineReply::Found(vec![])), Err(ServiceError::StoreFailed));
    assert_eq!(finish_fetch(&EngineReply::Done), Err(ServiceError::NotFoundOrUnavailable));
    assert_eq!(finish_delete(&EngineReply::Missing), Err(ServiceError::DeleteFailed));
}

#[test]
fn bytes_that_are_no_record_are_not_fetched() {
    assert_eq!(
        finish_fetch(&EngineReply::Found(b"{\"name\":\"x\"}".to_vec())),
        Err(ServiceError::NotFoundOrUnavailable)
    );
    assert_eq!(finish_fetch(&EngineReply::Found(vec![])), Err(ServiceError::NotFoundOrUnavailable));
}

#[test]
fn kept_record_is_given_back_by_finish_store() {
    let (record, _) =
        begin_store(&ServiceConfig::default(), Some("/a/b"), Some("text/plain"), vec![1]).unwrap();
    assert_eq!(finish_store(record.clone(), &EngineReply::Done), Ok(record));
}

#[test]
fn replacement_is_acknowledged_and_writes_nothing() {
    let mut engine = Engine::new();
    store(&mut engine, &ServiceConfig::default(), "/a/b", "text/plain", b"kept".to_vec()).unwrap();
    assert_eq!(replace(), Acknowledgment::Replaced);
    assert_eq!(fetch(&mut engine, "/a/b"), Ok(b"kept".to_vec()));
}

#[test]
fn acknowledgments_have_their_status_and_text() {
    assert_eq!(Acknowledgment::Stored.status_code(), 201);
    assert_eq!(Acknowledgment::Replaced.status_code(), 200);
    assert_eq!(Acknowledgment::Deleted.status_code(), 200);
    assert_eq!(Acknowledgment::Stored.message(), "File uploaded successfully");
    assert_eq!(Acknowledgment::Replaced.message(), "File put successfully");
    assert_eq!(Acknowledgment::Deleted.message(), "File deleted successfully");
}

#[test]
fn faults_of_the_request_are_status_400() {
    assert_eq!(missing_path().status_code(), 400);
    assert_eq!(missing_content_type().status_code(), 400);
    assert_eq!(ServiceError::InvalidPath.status_code(), 400);
    assert_eq!(ServiceError::PayloadTooLarge.status_code(), 400);
}

#[test]
fn faults_of_the_store_are_status_500() {
    assert_eq!(ServiceError::NotFoundOrUnavailable.status_code(), 500);
    assert_eq!(ServiceError::StoreFailed.status_code(), 500);
    assert_eq!(ServiceError::DeleteFailed.status_code(), 500);
}

#[test]
fn errors_have_their_text() {
    assert_eq!(missing_path().message("/a/b"), "x-full-file-path header is missing");
    assert_eq!(missing_content_type().message("/a/b"), "Content-Type header is missing");
    assert_eq!(ServiceError::InvalidPath.message("noslash"), "Invalid file path");
    assert_eq!(ServiceError::PayloadTooLarge.message("/a/b"), "File size exceeds the limit");
    assert_eq!(
        ServiceError::NotFoundOrUnavailable.message("/docs/report.pdf"),
        "Failed to retrieve file at path: /docs/report.pdf"
    );
    assert_eq!(ServiceError::StoreFailed.message("/a/b"), "Failed to store file");
    assert_eq!(ServiceError::DeleteFailed.message("/a/b"), "Failed to delete file");
}

#[test]
fn object_store_names_the_engine_commands() {
    let (record, _) =
        begin_store(&ServiceConfig::default(), Some("/a/b"), Some("text/plain"), vec![1, 2]).unwrap();
    assert_eq!(
        store_file("/a/b".to_string(), &record),
        EngineCommand::Put { key: "/a/b".to_string(), value: encode_record(&record) }
    );
    assert_eq!(retrieve_file("/a/b".to_string()), EngineCommand::Get { key: "/a/b".to_string() });
    assert_eq!(delete_file("/a/b".to_string()), EngineCommand::Delete { key: "/a/b".to_string() });
}

#[test]
fn object_store_reads_the_engine_replies() {
    let (record, _) =
        begin_store(&ServiceConfig::default(), Some("/a/b"), Some("text/plain"), vec![1, 2]).unwrap();
    assert_eq!(file_stored(&EngineReply::Done), Ok(()));
    assert_eq!(file_stored(&EngineReply::Failed), Err(StoreError::EngineUnavailable));
    assert_eq!(file_deleted(&EngineReply::Done), Ok(()));
    assert_eq!(file_deleted(&EngineReply::Failed), Err(StoreError::EngineUnavailable));
    assert_eq!(file_retrieved(&EngineReply::Missing), Ok(None));
    assert_eq!(file_retrieved(&EngineReply::Failed), Err(StoreError::EngineUnavailable));
    assert_eq!(file_retrieved(&EngineReply::Done), Err(StoreError::EngineUnavailable));
    assert_eq!(file_retrieved(&EngineReply::Found(vec![1, 2, 3])), Err(StoreError::DecodeError));
    assert_eq!(file_retrieved(&EngineReply::Found(encode_record(&record))), Ok(Some(record)));
}

#[test]
fn path_with_letters_of_many_alphabets_is_stored_and_fetched() {
    let mut engine = Engine::new();
    let record = store(
        &mut engine,
        &ServiceConfig::default(),
        "/文書/報告書.pdf",
        "application/pdf",
        b"pdf".to_vec(),
    )
    .unwrap();
    assert_eq!(record.name, "報告書.pdf");
    assert_eq!(record.storage_location, "/文書");
    assert_eq!(fetch(&mut engine, "/文書/報告書.pdf"), Ok(b"pdf".to_vec()));
}
