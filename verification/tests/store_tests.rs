//! Tests of the keyed document store over an in-memory sqlite database.

use getty_core::store::DocumentStore;

fn open_store() -> DocumentStore {
    DocumentStore::open(":memory:").expect("in-memory store must open")
}

#[test]
fn save_then_load_returns_content() {
    let mut s = open_store();
    s.save("notes", "hello").unwrap();
    assert_eq!(s.load("notes").unwrap(), Some("hello".to_string()));
}

#[test]
fn second_save_replaces_first() {
    let mut s = open_store();
    s.save("notes", "hello").unwrap();
    s.save("notes", "world").unwrap();
    assert_eq!(s.load("notes").unwrap(), Some("world".to_string()));
}

#[test]
fn load_of_missing_key_is_none_not_error() {
    let s = open_store();
    assert_eq!(s.load("never-saved").unwrap(), None);
}

#[test]
fn delete_removes_saved_record() {
    let mut s = open_store();
    s.save("notes", "hello").unwrap();
    s.delete("notes", None).unwrap();
    assert_eq!(s.load("notes").unwrap(), None);
}

#[test]
fn delete_of_missing_key_succeeds() {
    let mut s = open_store();
    assert!(s.delete("never-saved", None).is_ok());
}

#[test]
fn delete_ignores_id_argument() {
    let mut s = open_store();
    s.save("notes", "hello").unwrap();
    s.delete("notes", Some("some-id")).unwrap();
    assert_eq!(s.load("notes").unwrap(), None);
}

#[test]
fn saves_to_distinct_keys_are_independent() {
    let mut s = open_store();
    s.save("alpha", "1").unwrap();
    s.save("beta", "2").unwrap();
    s.save("gamma", "3").unwrap();
    assert_eq!(s.load("alpha").unwrap(), Some("1".to_string()));
    assert_eq!(s.load("beta").unwrap(), Some("2".to_string()));
    assert_eq!(s.load("gamma").unwrap(), Some("3".to_string()));
    s.delete("beta", None).unwrap();
    assert_eq!(s.load("alpha").unwrap(), Some("1".to_string()));
    assert_eq!(s.load("beta").unwrap(), None);
    assert_eq!(s.load("gamma").unwrap(), Some("3".to_string()));
}

#[test]
fn open_fails_on_unusable_path() {
    let r = DocumentStore::open("/nonexistent-dir/deeper/getty.db");
    assert!(r.is_err());
}

#[test]
fn payload_is_opaque_to_the_store() {
    let mut s = open_store();
    let blob = "{\"not\": \"validated\", \"x\": [1, 2";
    s.save("doc", blob).unwrap();
    assert_eq!(s.load("doc").unwrap(), Some(blob.to_string()));
}
