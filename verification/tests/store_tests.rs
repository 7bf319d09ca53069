use todo_core::store::Store;

fn fresh_store() -> Store {
    let store = Store::open_memory().expect("open");
    store.ensure_schema().expect("schema");
    store
}

#[test]
fn schema_creation_is_idempotent() {
    let store = fresh_store();
    assert!(store.ensure_schema().is_ok());
    assert!(store.ensure_schema().is_ok());
    assert_eq!(store.list_all().expect("list").len(), 0);
    store.insert(&b"kept".to_vec()).expect("insert");
    assert!(store.ensure_schema().is_ok());
    let entries = store.list_all().expect("list");
    assert_eq!(entries.len(), 1);
    assert_eq!(entries[0].text, b"kept".to_vec());
}

#[test]
fn insert_then_list_round_trip() {
    let store = fresh_store();
    store.insert(&b"buy milk".to_vec()).expect("insert");
    let entries = store.list_all().expect("list");
    let matching: Vec<_> = entries.iter().filter(|e| e.text == b"buy milk".to_vec()).collect();
    assert_eq!(matching.len(), 1);
    let id = matching[0].id;
    assert!(entries.iter().filter(|e| e.id == id).count() == 1);
}

#[test]
fn delete_removes_exactly_one_row() {
    let store = fresh_store();
    store.insert(&b"one".to_vec()).expect("insert");
    store.insert(&b"two".to_vec()).expect("insert");
    store.insert(&b"three".to_vec()).expect("insert");
    let mut ids: Vec<u32> = store.list_all().expect("list").iter().map(|e| e.id).collect();
    ids.sort();
    assert_eq!(ids, vec![1, 2, 3]);
    store.delete_by_id(2).expect("delete");
    let mut rest: Vec<u32> = store.list_all().expect("list").iter().map(|e| e.id).collect();
    rest.sort();
    assert_eq!(rest, vec![1, 3]);
}

#[test]
fn delete_of_missing_id_is_a_no_op() {
    let store = fresh_store();
    assert!(store.delete_by_id(9999).is_ok());
    assert_eq!(store.list_all().expect("list").len(), 0);
    store.insert(&b"stay".to_vec()).expect("insert");
    assert!(store.delete_by_id(9999).is_ok());
    let entries = store.list_all().expect("list");
    assert_eq!(entries.len(), 1);
    assert_eq!(entries[0].text, b"stay".to_vec());
}

#[test]
fn empty_text_is_stored() {
    let store = fresh_store();
    store.insert(&Vec::new()).expect("insert");
    let entries = store.list_all().expect("list");
    assert_eq!(entries.len(), 1);
    assert_eq!(entries[0].text, Vec::<u8>::new());
}

#[test]
fn inserts_get_distinct_ids_and_none_is_lost() {
    let store = fresh_store();
    store.insert(&b"prior".to_vec()).expect("insert");
    let prior = store.list_all().expect("list").len();
    let n = 20;
    for i in 0..n {
        store.insert(&format!("task {}", i).into_bytes()).expect("insert");
    }
    let entries = store.list_all().expect("list");
    assert_eq!(entries.len(), prior + n);
    let mut ids: Vec<u32> = entries.iter().map(|e| e.id).collect();
    ids.sort();
    ids.dedup();
    assert_eq!(ids.len(), prior + n);
}

#[test]
fn missing_table_surfaces_as_storage_error() {
    let store = Store::open_memory().expect("open");
    let err = store.list_all();
    assert!(err.is_err());
    assert_eq!(err.err().map(|e| e.http_status()), Some(500));
}
