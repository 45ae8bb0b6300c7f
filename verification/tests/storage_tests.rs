use whatnull::storage::{
    FileSecretStore, SecretEntry, SecretValue, SecretsDocument, StoredSecrets,
};
use whatnull::types::AppError;

fn store() -> FileSecretStore {
    FileSecretStore::new("/data/whatnull")
}

fn object(entries: Vec<(&str, SecretValue)>) -> SecretsDocument {
    SecretsDocument::Object(
        entries
            .into_iter()
            .map(|(k, v)| SecretEntry { key: k.to_string(), value: v })
            .collect(),
    )
}

fn text(s: &str) -> SecretValue {
    SecretValue::Text(s.to_string())
}

#[test]
fn missing_file_reads_nothing() {
    assert_eq!(store().get(StoredSecrets::Missing, "token").unwrap(), None);
}

#[test]
fn unparsable_file_is_an_error_on_read_and_delete() {
    match store().get(StoredSecrets::Unparsable("expected value".to_string()), "k") {
        Err(AppError::Storage(m)) => assert_eq!(m, "Failed to parse secrets JSON: expected value"),
        other => panic!("unexpected {:?}", other),
    }
    match store().delete(StoredSecrets::Unparsable("eof".to_string()), "k") {
        Err(AppError::Storage(m)) => assert_eq!(m, "Failed to parse secrets JSON: eof"),
        Err(other) => panic!("unexpected {:?}", other),
        Ok(_) => panic!("expected an error"),
    }
}

#[test]
fn set_then_get_gives_back_the_value() {
    let s = store();
    let doc = s.set(StoredSecrets::Missing, "token", "abc");
    assert_eq!(s.get(StoredSecrets::Parsed(doc), "token").unwrap(), Some("abc".to_string()));

    let doc = s.set(StoredSecrets::Unparsable("garbage".to_string()), "token", "xyz");
    assert_eq!(doc.get_text("token"), Some("xyz".to_string()));

    let existing = object(vec![("a", text("1")), ("token", text("old"))]);
    let doc = s.set(StoredSecrets::Parsed(existing), "token", "new");
    assert_eq!(doc.get_text("token"), Some("new".to_string()));
    assert_eq!(doc.get_text("a"), Some("1".to_string()));
    match &doc {
        SecretsDocument::Object(entries) => assert_eq!(entries.len(), 2),
        SecretsDocument::Other(_) => panic!("expected an object"),
    }
}

#[test]
fn non_string_values_read_as_nothing_and_are_kept() {
    let mut doc = object(vec![("n", SecretValue::Json("42".to_string())), ("s", text("v"))]);
    assert_eq!(doc.get_text("n"), None);
    doc.set_text("t", "w");
    match &doc {
        SecretsDocument::Object(entries) => {
            assert!(entries.iter().any(|e| e.key == "n"
                && matches!(&e.value, SecretValue::Json(j) if j == "42")));
        }
        SecretsDocument::Other(_) => panic!("expected an object"),
    }
}

#[test]
fn a_file_that_is_not_an_object_is_left_alone() {
    let s = store();
    let doc = s.set(StoredSecrets::Parsed(SecretsDocument::Other("[1,2]".to_string())), "k", "v");
    match &doc {
        SecretsDocument::Other(raw) => assert_eq!(raw, "[1,2]"),
        SecretsDocument::Object(_) => panic!("expected the array back"),
    }
    assert_eq!(doc.get_text("k"), None);
}

#[test]
fn delete_removes_only_that_key() {
    let s = store();
    assert!(s.delete(StoredSecrets::Missing, "k").unwrap().is_none());
    let existing = object(vec![("a", text("1")), ("b", text("2"))]);
    let doc = s.delete(StoredSecrets::Parsed(existing), "a").unwrap().unwrap();
    assert_eq!(doc.get_text("a"), None);
    assert_eq!(doc.get_text("b"), Some("2".to_string()));
}

#[test]
fn the_last_duplicate_key_wins() {
    let doc = object(vec![("k", text("first")), ("k", text("second"))]);
    assert_eq!(doc.get_text("k"), Some("second".to_string()));
    let mut doc = doc;
    doc.remove_key("k");
    assert_eq!(doc.get_text("k"), None);
}

#[test]
fn secrets_file_lives_in_the_base_dir() {
    assert_eq!(store().path(), "/data/whatnull/secrets.json");
    assert_eq!(SecretsDocument::empty().get_text("x"), None);
}
