use std::sync::Arc;

use inmem_storage::{
    ContainerId, ContainerOptions, ContainerType, DBOptions, DatabaseId, InMemStorage,
    ScanOptions, Status, TxnOptions, TxnStorageTrait,
};

fn get_in_mem_storage() -> Arc<InMemStorage> {
    Arc::new(InMemStorage::new())
}

fn setup_table(storage: &InMemStorage, c_type: ContainerType) -> (DatabaseId, ContainerId) {
    let db_options = DBOptions::new("test_db");
    let db_id = storage.open_db(db_options).unwrap();
    let container_options = ContainerOptions::new("test_container", c_type);
    let txn = storage.begin_txn(&db_id, TxnOptions::default()).unwrap();
    let c_id = storage
        .create_container(&txn, &db_id, container_options)
        .unwrap();
    storage.commit_txn(&txn, false).unwrap();
    (db_id, c_id)
}

fn scan_all(storage: &InMemStorage, db_id: DatabaseId, c_id: ContainerId) -> Vec<(Vec<u8>, Vec<u8>)> {
    let txn = storage.begin_txn(&db_id, TxnOptions::default()).unwrap();
    let mut iter_handle = storage.scan_range(&txn, &c_id, ScanOptions::new()).unwrap();
    let mut out = Vec::new();
    while let Ok(Some(pair)) = storage.iter_next(&mut iter_handle) {
        out.push(pair);
    }
    storage.drop_iterator_handle(iter_handle).unwrap();
    out
}

#[test]
fn test_open_and_delete_db() {
    let storage = get_in_mem_storage();
    let db_options = DBOptions::new("test_db");
    let db_id = storage.open_db(db_options).unwrap();
    assert!(storage.delete_db(&db_id).is_ok());
}

#[test]
fn test_create_and_delete_container() {
    let storage = get_in_mem_storage();
    let (db_id, c_id) = setup_table(&storage, ContainerType::Hash);
    let txn = storage.begin_txn(&db_id, TxnOptions::default()).unwrap();
    assert!(storage.delete_container(&txn, &db_id, &c_id).is_ok());
    storage.commit_txn(&txn, false).unwrap();
}

#[test]
fn test_insert_and_get_value() {
    let storage = get_in_mem_storage();
    let (db_id, c_id) = setup_table(&storage, ContainerType::Hash);
    let key = vec![0];
    let value = vec![1, 2, 3, 4];
    let txn = storage.begin_txn(&db_id, TxnOptions::default()).unwrap();
    storage
        .insert_value(&txn, &c_id, key.clone(), value.clone())
        .unwrap();
    let retrieved_value = storage.get_value(&txn, &c_id, &key).unwrap();
    assert_eq!(value, retrieved_value);
    storage.commit_txn(&txn, false).unwrap();
}

#[test]
fn test_update_and_remove_value() {
    let storage = get_in_mem_storage();
    let (db_id, c_id) = setup_table(&storage, ContainerType::Hash);
    let txn = storage.begin_txn(&db_id, TxnOptions::default()).unwrap();
    let key = vec![0];
    let value = vec![1, 2, 3, 4];
    storage
        .insert_value(&txn, &c_id, key.clone(), value.clone())
        .unwrap();
    let new_value = vec![4, 3, 2, 1];
    storage
        .update_value(&txn, &c_id, &key, new_value.clone())
        .unwrap();
    let updated_value = storage.get_value(&txn, &c_id, &key).unwrap();
    assert_eq!(new_value, updated_value);

    assert!(storage.delete_value(&txn, &c_id, &key).is_ok());
    assert!(matches!(
        storage.get_value(&txn, &c_id, &key),
        Err(Status::KeyNotFound)
    ));
    storage.commit_txn(&txn, false).unwrap();
}

#[test]
fn test_scan_range() {
    let storage = get_in_mem_storage();
    let (db_id, c_id) = setup_table(&storage, ContainerType::BTree);

    let txn = storage.begin_txn(&db_id, TxnOptions::default()).unwrap();
    // Insert some values
    for i in 0..4 {
        let key = vec![i];
        let value = vec![i as u8; 4];
        storage.insert_value(&txn, &c_id, key, value).unwrap();
    }
    let mut iter_handle = storage.scan_range(&txn, &c_id, ScanOptions::new()).unwrap();
    let mut count = 0;
    while let Ok(Some((key, val))) = storage.iter_next(&mut iter_handle) {
        assert_eq!(key, vec![count]);
        assert_eq!(val, vec![count as u8; 4]);
        count += 1;
    }
    assert_eq!(count, 4);
    storage.commit_txn(&txn, false).unwrap();
}

#[test]
fn ordered_scan_after_unordered_inserts() {
    let storage = get_in_mem_storage();
    let (db_id, c_id) = setup_table(&storage, ContainerType::BTree);
    let txn = storage.begin_txn(&db_id, TxnOptions::default()).unwrap();
    for k in [3u8, 1, 2] {
        storage.insert_value(&txn, &c_id, vec![k], vec![k * 10]).unwrap();
    }
    let pairs = scan_all(&storage, db_id, c_id);
    assert_eq!(
        pairs,
        vec![(vec![1], vec![10]), (vec![2], vec![20]), (vec![3], vec![30])]
    );
}

#[test]
fn ordered_scan_is_byte_lexicographic() {
    let storage = get_in_mem_storage();
    let (db_id, c_id) = setup_table(&storage, ContainerType::BTree);
    let txn = storage.begin_txn(&db_id, TxnOptions::default()).unwrap();
    let keys: Vec<Vec<u8>> = vec![
        vec![2],
        vec![1, 0],
        vec![],
        vec![1],
        vec![0, 255, 255],
        vec![255],
        vec![1, 0, 0],
    ];
    for k in keys.iter() {
        storage.insert_value(&txn, &c_id, k.clone(), vec![7]).unwrap();
    }
    let got: Vec<Vec<u8>> = scan_all(&storage, db_id, c_id).into_iter().map(|p| p.0).collect();
    assert_eq!(
        got,
        vec![
            vec![],
            vec![0, 255, 255],
            vec![1],
            vec![1, 0],
            vec![1, 0, 0],
            vec![2],
            vec![255],
        ]
    );
}

#[test]
fn hash_scan_visits_each_key_once() {
    let storage = get_in_mem_storage();
    let (db_id, c_id) = setup_table(&storage, ContainerType::Hash);
    let txn = storage.begin_txn(&db_id, TxnOptions::default()).unwrap();
    for k in 0u8..20 {
        storage.insert_value(&txn, &c_id, vec![k, k], vec![k]).unwrap();
    }
    storage.delete_value(&txn, &c_id, &[5, 5]).unwrap();
    storage.update_value(&txn, &c_id, &[7, 7], vec![70]).unwrap();
    let mut got = scan_all(&storage, db_id, c_id);
    got.sort();
    let mut want: Vec<(Vec<u8>, Vec<u8>)> = Vec::new();
    for k in 0u8..20 {
        if k == 5 {
            continue;
        }
        let v = if k == 7 { 70 } else { k };
        want.push((vec![k, k], vec![v]));
    }
    assert_eq!(got, want);
}

#[test]
fn insert_existing_key_fails_and_keeps_value() {
    let storage = get_in_mem_storage();
    let db_id = storage.open_db(DBOptions::new("db")).unwrap();
    let txn = storage.begin_txn(&db_id, TxnOptions::default()).unwrap();
    for kind in [ContainerType::Hash, ContainerType::BTree] {
        let c_id = storage
            .create_container(&txn, &db_id, ContainerOptions::new("c", kind))
            .unwrap();
        storage.insert_value(&txn, &c_id, vec![9], vec![1]).unwrap();
        assert_eq!(
            storage.insert_value(&txn, &c_id, vec![9], vec![2]),
            Err(Status::KeyExists)
        );
        assert_eq!(storage.get_value(&txn, &c_id, &[9]), Ok(vec![1]));
    }
}

#[test]
fn update_and_delete_of_absent_key_fail() {
    let storage = get_in_mem_storage();
    let db_id = storage.open_db(DBOptions::new("db")).unwrap();
    let txn = storage.begin_txn(&db_id, TxnOptions::default()).unwrap();
    for kind in [ContainerType::Hash, ContainerType::BTree] {
        let c_id = storage
            .create_container(&txn, &db_id, ContainerOptions::new("c", kind))
            .unwrap();
        storage.insert_value(&txn, &c_id, vec![1], vec![1]).unwrap();
        assert_eq!(
            storage.update_value(&txn, &c_id, &[2], vec![5]),
            Err(Status::KeyNotFound)
        );
        assert_eq!(storage.delete_value(&txn, &c_id, &[2]), Err(Status::KeyNotFound));
        assert_eq!(scan_all(&storage, db_id, c_id), vec![(vec![1], vec![1])]);
    }
}

#[test]
fn deleted_container_is_listed_and_empty() {
    let storage = get_in_mem_storage();
    let (db_id, c_id) = setup_table(&storage, ContainerType::BTree);
    let txn = storage.begin_txn(&db_id, TxnOptions::default()).unwrap();
    let other = storage
        .create_container(&txn, &db_id, ContainerOptions::new("other", ContainerType::Hash))
        .unwrap();
    assert_eq!(other, 1);
    storage.insert_value(&txn, &c_id, vec![1], vec![1]).unwrap();
    storage.insert_value(&txn, &c_id, vec![2], vec![2]).unwrap();
    storage.insert_value(&txn, &other, vec![3], vec![3]).unwrap();
    storage.delete_container(&txn, &db_id, &c_id).unwrap();
    let ids = storage.list_containers(&txn, &db_id).unwrap();
    assert_eq!(ids.len(), 2);
    assert!(ids.contains(&c_id));
    assert!(ids.contains(&other));
    assert_eq!(storage.get_value(&txn, &c_id, &[1]), Err(Status::KeyNotFound));
    assert_eq!(storage.get_value(&txn, &c_id, &[2]), Err(Status::KeyNotFound));
    assert_eq!(storage.check_value(&txn, &c_id, &[1]), Ok(false));
    assert_eq!(storage.get_value(&txn, &other, &[3]), Ok(vec![3]));
    // the emptied container can be used again, and keeps its kind
    storage.insert_value(&txn, &c_id, vec![2], vec![20]).unwrap();
    storage.insert_value(&txn, &c_id, vec![1], vec![10]).unwrap();
    assert_eq!(
        scan_all(&storage, db_id, c_id),
        vec![(vec![1], vec![10]), (vec![2], vec![20])]
    );
}

#[test]
fn database_errors() {
    let storage = get_in_mem_storage();
    let txn = storage.begin_txn(&0, TxnOptions::default()).unwrap();
    assert_eq!(txn.db_id(), 0);
    assert_eq!(
        storage.create_container(&txn, &0, ContainerOptions::new("c", ContainerType::Hash)),
        Err(Status::DBNotFound)
    );
    assert_eq!(storage.list_containers(&txn, &0).err(), Some(Status::DBNotFound));
    assert_eq!(storage.delete_db(&0), Err(Status::DBNotFound));
    assert_eq!(storage.open_db(DBOptions::new("db")), Ok(0));
    assert_eq!(storage.open_db(DBOptions::new("db")), Err(Status::DBExists));
    assert_eq!(storage.delete_db(&1), Err(Status::DBNotFound));
    assert_eq!(
        storage.create_container(&txn, &1, ContainerOptions::new("c", ContainerType::Hash)),
        Err(Status::DBNotFound)
    );
    assert_eq!(storage.delete_container(&txn, &1, &0), Err(Status::DBNotFound));
    assert_eq!(storage.delete_container(&txn, &0, &0), Err(Status::ContainerNotFound));
    assert_eq!(storage.close_db(&0), Ok(()));
    assert_eq!(storage.abort_txn(&txn), Ok(()));
    assert_eq!(storage.wait_for_txn(&txn), Ok(()));
    assert_eq!(storage.drop_txn(txn), Ok(()));
}

#[test]
fn unknown_container_is_reported() {
    let storage = get_in_mem_storage();
    let (db_id, c_id) = setup_table(&storage, ContainerType::Hash);
    let txn = storage.begin_txn(&db_id, TxnOptions::default()).unwrap();
    let missing = c_id + 1;
    assert_eq!(storage.get_value(&txn, &missing, &[1]), Err(Status::ContainerNotFound));
    assert_eq!(storage.check_value(&txn, &missing, &[1]), Err(Status::ContainerNotFound));
    assert_eq!(
        storage.insert_value(&txn, &missing, vec![1], vec![1]),
        Err(Status::ContainerNotFound)
    );
    assert_eq!(
        storage.update_value(&txn, &missing, &[1], vec![1]),
        Err(Status::ContainerNotFound)
    );
    assert_eq!(storage.delete_value(&txn, &missing, &[1]), Err(Status::ContainerNotFound));
    assert!(matches!(
        storage.scan_range(&txn, &missing, ScanOptions::new()),
        Err(Status::ContainerNotFound)
    ));
}

#[test]
fn delete_db_clears_everything() {
    let storage = get_in_mem_storage();
    let (db_id, c_id) = setup_table(&storage, ContainerType::Hash);
    let txn = storage.begin_txn(&db_id, TxnOptions::default()).unwrap();
    storage.insert_value(&txn, &c_id, vec![1], vec![1]).unwrap();
    assert_eq!(storage.delete_db(&db_id), Ok(()));
    assert_eq!(storage.get_value(&txn, &c_id, &[1]), Err(Status::ContainerNotFound));
    assert_eq!(storage.open_db(DBOptions::new("again")), Ok(0));
    assert_eq!(storage.list_containers(&txn, &0).unwrap().len(), 0);
    let c = storage
        .create_container(&txn, &0, ContainerOptions::new("c", ContainerType::BTree))
        .unwrap();
    assert_eq!(c, 0);
}

#[test]
fn insert_values_stops_at_first_existing_key() {
    let storage = get_in_mem_storage();
    let (db_id, c_id) = setup_table(&storage, ContainerType::BTree);
    let txn = storage.begin_txn(&db_id, TxnOptions::default()).unwrap();
    storage.insert_value(&txn, &c_id, vec![3], vec![0]).unwrap();
    let batch = vec![
        (vec![1], vec![1]),
        (vec![2], vec![2]),
        (vec![3], vec![3]),
        (vec![4], vec![4]),
    ];
    assert_eq!(storage.insert_values(&txn, &c_id, batch), Err(Status::KeyExists));
    assert_eq!(
        scan_all(&storage, db_id, c_id),
        vec![(vec![1], vec![1]), (vec![2], vec![2]), (vec![3], vec![0])]
    );
    let batch = vec![(vec![6], vec![6]), (vec![5], vec![5])];
    assert_eq!(storage.insert_values(&txn, &c_id, batch), Ok(()));
    assert_eq!(storage.check_value(&txn, &c_id, &[5]), Ok(true));
    assert_eq!(storage.check_value(&txn, &c_id, &[6]), Ok(true));
    assert_eq!(storage.check_value(&txn, &c_id, &[4]), Ok(false));
}

#[test]
fn iterator_is_a_snapshot() {
    let storage = get_in_mem_storage();
    let (db_id, c_id) = setup_table(&storage, ContainerType::BTree);
    let txn = storage.begin_txn(&db_id, TxnOptions::default()).unwrap();
    storage.insert_value(&txn, &c_id, vec![1], vec![1]).unwrap();
    storage.insert_value(&txn, &c_id, vec![2], vec![2]).unwrap();
    let mut it = storage.scan_range(&txn, &c_id, ScanOptions::new()).unwrap();
    assert_eq!(storage.get_value(&txn, &c_id, &[1]), Ok(vec![1]));
    storage.insert_value(&txn, &c_id, vec![0], vec![0]).unwrap();
    storage.delete_value(&txn, &c_id, &[2]).unwrap();
    assert_eq!(storage.iter_next(&mut it), Ok(Some((vec![1], vec![1]))));
    assert_eq!(storage.iter_next(&mut it), Ok(Some((vec![2], vec![2]))));
    assert_eq!(storage.iter_next(&mut it), Ok(None));
    assert_eq!(storage.iter_next(&mut it), Ok(None));
}

#[test]
fn container_ids_run_out() {
    let storage = get_in_mem_storage();
    let (db_id, first) = setup_table(&storage, ContainerType::Hash);
    assert_eq!(first, 0);
    let txn = storage.begin_txn(&db_id, TxnOptions::default()).unwrap();
    for i in 1..=65535u32 {
        let c = storage
            .create_container(&txn, &db_id, ContainerOptions::new("c", ContainerType::Hash))
            .unwrap();
        assert_eq!(c as u32, i);
    }
    assert_eq!(
        storage.create_container(&txn, &db_id, ContainerOptions::new("c", ContainerType::Hash)),
        Err(Status::Error)
    );
    assert_eq!(storage.list_containers(&txn, &db_id).unwrap().len(), 65536);
}

fn shareable_between_threads<T: Send + Sync>() {}

#[test]
fn engine_can_be_shared_between_threads() {
    shareable_between_threads::<InMemStorage>();
    shareable_between_threads::<Arc<InMemStorage>>();
}
