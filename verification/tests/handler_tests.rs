use todo_core::handler::{handle_add, handle_delete, handle_index, Response};
use todo_core::store::Store;

fn fresh_store() -> Store {
    let store = Store::open_memory().expect("open");
    store.ensure_schema().expect("schema");
    store
}

#[test]
fn list_on_empty_store_renders_no_entries() {
    let store = fresh_store();
    let r = handle_index(&store);
    assert_eq!(r.status(), 200);
    match r {
        Response::Page(body) => {
            assert_eq!(body, b"<html><body><ul></ul></body></html>".to_vec());
        }
        _ => panic!("expected the rendered page"),
    }
}

#[test]
fn add_then_list_shows_the_entry() {
    let store = fresh_store();
    let r = handle_add(&store, b"text=buy+milk");
    assert_eq!(r.status(), 303);
    assert!(matches!(r, Response::Redirect));
    let r = handle_index(&store);
    match r {
        Response::Page(body) => {
            assert_eq!(body, b"<html><body><ul><li>1: buy milk</li></ul></body></html>".to_vec());
        }
        _ => panic!("expected the rendered page"),
    }
}

#[test]
fn add_with_empty_text_succeeds() {
    let store = fresh_store();
    let r = handle_add(&store, b"text=");
    assert_eq!(r.status(), 303);
    let entries = store.list_all().expect("list");
    assert_eq!(entries.len(), 1);
    assert_eq!(entries[0].text, Vec::<u8>::new());
}

#[test]
fn add_without_text_field_is_rejected() {
    let store = fresh_store();
    let r = handle_add(&store, b"nope=1");
    assert_eq!(r.status(), 400);
    assert!(matches!(r, Response::BadRequest));
    assert_eq!(store.list_all().expect("list").len(), 0);
}

#[test]
fn delete_redirects_and_removes() {
    let store = fresh_store();
    handle_add(&store, b"text=a");
    handle_add(&store, b"text=b");
    let ids: Vec<u32> = store.list_all().expect("list").iter().map(|e| e.id).collect();
    let r = handle_delete(&store, format!("id={}", ids[0]).as_bytes());
    assert_eq!(r.status(), 303);
    let rest = store.list_all().expect("list");
    assert_eq!(rest.len(), 1);
    assert!(rest.iter().all(|e| e.id != ids[0]));
}

#[test]
fn malformed_delete_body_is_rejected_and_store_unchanged() {
    let store = fresh_store();
    handle_add(&store, b"text=keep");
    let before: Vec<(u32, Vec<u8>)> =
        store.list_all().expect("list").iter().map(|e| (e.id, e.text.clone())).collect();
    let r = handle_delete(&store, b"id=abc");
    assert_eq!(r.status(), 400);
    assert!(matches!(r, Response::BadRequest));
    let after: Vec<(u32, Vec<u8>)> =
        store.list_all().expect("list").iter().map(|e| (e.id, e.text.clone())).collect();
    assert_eq!(before, after);
}

#[test]
fn storage_failure_yields_server_error() {
    let store = Store::open_memory().expect("open");
    let r = handle_index(&store);
    assert_eq!(r.status(), 500);
    assert!(matches!(r, Response::ServerError));
    let r = handle_add(&store, b"text=x");
    assert_eq!(r.status(), 500);
    let r = handle_delete(&store, b"id=1");
    assert_eq!(r.status(), 500);
}

#[test]
fn only_redirects_carry_a_location() {
    let store = fresh_store();
    let r = handle_add(&store, b"text=x");
    assert_eq!(r.location(), Some(b"/".to_vec()));
    assert_eq!(handle_index(&store).location(), None);
    assert_eq!(handle_delete(&store, b"id=oops").location(), None);
}
