//! The batched-write primitive: chunking, retry of unprocessed items, and
//! exactly-once application.

use gym_log::batch::{clone_write_request, BatchWriter, WriteRequest};
use gym_log::row::{Row, RowData};
use gym_log::store::UserStore;

fn put_request(i: usize) -> WriteRequest {
    WriteRequest::PutRow(Row {
        key: format!("000000000#MEASUREMENT#2024-01-{:02}", i),
        modified_version: 1,
        data: RowData::Tombstone,
    })
}

fn key_of(w: &WriteRequest) -> String {
    match w {
        WriteRequest::PutRow(r) => r.key.clone(),
        WriteRequest::DeleteKey { key } => key.clone(),
    }
}

#[test]
fn batches_are_capped_at_backend_size() {
    let requests: Vec<WriteRequest> = (0..60).map(put_request).collect();
    let mut writer = BatchWriter::new(requests);
    let batch = writer.take();
    assert_eq!(batch.len(), 25);
    writer.report(Vec::new());
    let batch = writer.take();
    assert_eq!(batch.len(), 25);
    writer.report(Vec::new());
    let batch = writer.take();
    assert_eq!(batch.len(), 10);
    writer.report(Vec::new());
    assert!(writer.is_done());
}

#[test]
fn throttled_batches_are_retried_until_applied_exactly_once() {
    let requests: Vec<WriteRequest> = (0..60).map(put_request).collect();
    let expected: Vec<String> = requests.iter().map(key_of).collect();

    let mut writer = BatchWriter::new(requests);
    let mut applied: Vec<String> = Vec::new();
    let mut first_call = true;
    while !writer.is_done() {
        let batch = writer.take();
        // The simulated backend throws the first half of the first batch
        // back as unprocessed, then behaves.
        let rejected: Vec<WriteRequest> = if first_call {
            first_call = false;
            batch[..batch.len() / 2].iter().map(clone_write_request).collect()
        } else {
            Vec::new()
        };
        let rejected_keys: Vec<String> = rejected.iter().map(key_of).collect();
        for w in batch.iter() {
            let k = key_of(w);
            if !rejected_keys.contains(&k) {
                applied.push(k);
            }
        }
        writer.report(rejected);
    }

    let mut applied_sorted = applied.clone();
    applied_sorted.sort();
    let mut expected_sorted = expected.clone();
    expected_sorted.sort();
    assert_eq!(applied.len(), 60);
    assert_eq!(applied_sorted, expected_sorted);
}

#[test]
fn store_applies_puts_and_deletes_in_order() {
    let mut store = UserStore::new();
    let key = String::from("000000000#MEASUREMENT#2024-01-01");
    let requests = vec![
        WriteRequest::PutRow(Row {
            key: key.clone(),
            modified_version: 3,
            data: RowData::Tombstone,
        }),
        WriteRequest::DeleteKey { key: key.clone() },
    ];
    store.batch_write(&requests);
    assert!(store.rows.is_empty());

    let requests = vec![WriteRequest::PutRow(Row {
        key: key.clone(),
        modified_version: 5,
        data: RowData::Tombstone,
    })];
    store.batch_write(&requests);
    assert_eq!(store.rows.len(), 1);
    assert_eq!(store.rows[0].modified_version, 5);
    assert!(matches!(store.rows[0].data, RowData::Tombstone));
}
