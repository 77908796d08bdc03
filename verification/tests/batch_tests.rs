use vault_sync::batch::{batch_size_of, chunk_ops, run_chunks, DEFAULT_CHUNK_SIZE};
use vault_sync::error::StorageError;
use vault_sync::import::{reconcile_import, FolderRelationship, ImportCipher, ImportFolder,
    ImportRequest};
use vault_sync::store::{apply_ops, plan_ops, Store, WriteOp};

fn s(x: &str) -> String {
    x.to_string()
}

fn item(name: &str) -> ImportCipher {
    ImportCipher {
        encrypted_for: s("user-1"),
        kind: 2,
        name: s(name),
        notes: None,
        favorite: false,
        login: None,
        card: None,
        identity: None,
        secure_note: None,
        fields: None,
        password_history: None,
        reprompt: None,
        folder_id: None,
        organization_id: None,
    }
}

fn batch() -> ImportRequest {
    ImportRequest {
        folders: vec![
            ImportFolder { id: s("t0"), name: s("F0") },
            ImportFolder { id: s("t1"), name: s("F1") },
        ],
        ciphers: vec![item("I0"), item("I1"), item("I2")],
        folder_relationships: vec![FolderRelationship { key: 2, value: 1 }],
    }
}

fn batch_ops() -> Vec<WriteOp> {
    let plan = reconcile_import(
        batch(),
        &s("user-1"),
        vec![s("fid-0"), s("fid-1")],
        vec![s("cid-0"), s("cid-1"), s("cid-2")],
        &s("2024-01-01T00:00:00.000Z"),
    )
    .unwrap();
    plan_ops(plan)
}

#[test]
fn batch_size_reads_decimal_configuration_or_falls_back() {
    assert_eq!(batch_size_of(None), DEFAULT_CHUNK_SIZE);
    assert_eq!(batch_size_of(Some(s("12"))), 12);
    assert_eq!(batch_size_of(Some(s("0"))), 0);
    assert_eq!(batch_size_of(Some(s("007"))), 7);
    assert_eq!(batch_size_of(Some(s("+25"))), 25);
    assert_eq!(batch_size_of(Some(s(""))), DEFAULT_CHUNK_SIZE);
    assert_eq!(batch_size_of(Some(s("+"))), DEFAULT_CHUNK_SIZE);
    assert_eq!(batch_size_of(Some(s("abc"))), DEFAULT_CHUNK_SIZE);
    assert_eq!(batch_size_of(Some(s("1x"))), DEFAULT_CHUNK_SIZE);
    assert_eq!(batch_size_of(Some(s("-5"))), DEFAULT_CHUNK_SIZE);
    assert_eq!(batch_size_of(Some(s(" 8"))), DEFAULT_CHUNK_SIZE);
    assert_eq!(
        batch_size_of(Some(s("99999999999999999999999999"))),
        DEFAULT_CHUNK_SIZE,
        "a number no machine word holds falls back"
    );
}

#[test]
fn plan_ops_emits_folders_before_items() {
    let ops = batch_ops();
    assert_eq!(ops.len(), 5);
    assert!(matches!(ops[0], WriteOp::PutFolder(_)));
    assert!(matches!(ops[1], WriteOp::PutFolder(_)));
    assert!(matches!(ops[2], WriteOp::PutCipher(_)));
    assert!(matches!(ops[3], WriteOp::PutCipher(_)));
    assert!(matches!(ops[4], WriteOp::PutCipher(_)));
}

#[test]
fn importing_the_same_batch_twice_stores_the_same_records() {
    let mut once = Store::new();
    apply_ops(&mut once, batch_ops());
    let mut twice = Store::new();
    apply_ops(&mut twice, batch_ops());
    apply_ops(&mut twice, batch_ops());
    assert_eq!(once, twice);
    assert_eq!(once.folders.len(), 2);
    assert_eq!(once.ciphers.len(), 3);
}

#[test]
fn chunking_five_operations_by_two_gives_three_ordered_chunks() {
    let chunks = chunk_ops(batch_ops(), 2);
    assert_eq!(chunks.len(), 3);
    assert_eq!(chunks[0].len(), 2);
    assert_eq!(chunks[1].len(), 2);
    assert_eq!(chunks[2].len(), 1);
    let flattened: Vec<&WriteOp> = chunks.iter().flatten().collect();
    let reference = batch_ops();
    assert_eq!(flattened.len(), reference.len());
    for (a, b) in flattened.iter().zip(reference.iter()) {
        assert_eq!(**a, *b, "chunking keeps the original order");
    }
}

#[test]
fn chunk_size_zero_is_one_atomic_unit() {
    let chunks = chunk_ops(batch_ops(), 0);
    assert_eq!(chunks.len(), 1);
    assert_eq!(chunks[0].len(), 5);
    let none = chunk_ops(Vec::new(), 0);
    assert_eq!(none.len(), 0);
    assert_eq!(DEFAULT_CHUNK_SIZE, 30);
}

#[test]
fn oversized_chunk_size_yields_a_single_chunk() {
    let chunks = chunk_ops(batch_ops(), 100);
    assert_eq!(chunks.len(), 1);
    assert_eq!(chunks[0].len(), 5);
    let exact = chunk_ops(batch_ops(), 5);
    assert_eq!(exact.len(), 1);
    let singles = chunk_ops(batch_ops(), 1);
    assert_eq!(singles.len(), 5);
    assert!(singles.iter().all(|c| c.len() == 1));
}

#[test]
fn failing_chunk_keeps_earlier_chunks_and_aborts_later_ones() {
    let chunks = chunk_ops(batch_ops(), 2);
    let mut store = Store::new();
    let outcomes = vec![true, false, true];
    let r = run_chunks(&mut store, chunks, &outcomes);
    assert_eq!(r, Err(StorageError::ChunkFailed));
    // Chunk 1 (two folders) is durable; chunks 2 and 3 never applied.
    assert_eq!(store.folders.len(), 2);
    assert_eq!(store.ciphers.len(), 0);
    assert_eq!(store.folders[0].id, s("fid-0"));
    assert_eq!(store.folders[1].id, s("fid-1"));
}

#[test]
fn all_chunks_succeeding_applies_everything_in_order() {
    let chunks = chunk_ops(batch_ops(), 2);
    let mut store = Store::new();
    let r = run_chunks(&mut store, chunks, &vec![true, true, true]);
    assert_eq!(r, Ok(()));
    assert_eq!(store.folders.len(), 2);
    assert_eq!(store.ciphers.len(), 3);
    assert_eq!(store.ciphers[2].folder_id, Some(s("fid-1")));
}
