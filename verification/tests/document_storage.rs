use unity_ls::document_storage::DocumentStorage;

#[test]
fn open_change_close() {
    let mut docs = DocumentStorage::new();
    assert_eq!(docs.get("file:///a.cs"), None);
    docs.open("file:///a.cs".to_string(), "one".to_string());
    docs.open("file:///b.cs".to_string(), "two".to_string());
    assert_eq!(docs.get("file:///a.cs"), Some("one"));
    assert_eq!(docs.get("file:///b.cs"), Some("two"));
    docs.change("file:///a.cs".to_string(), "three".to_string());
    assert_eq!(docs.get("file:///a.cs"), Some("three"));
    assert_eq!(docs.get("file:///b.cs"), Some("two"));
    docs.close("file:///a.cs");
    assert_eq!(docs.get("file:///a.cs"), None);
    assert_eq!(docs.get("file:///b.cs"), Some("two"));
}

#[test]
fn reopening_replaces_text() {
    let mut docs = DocumentStorage::default();
    docs.open("u".to_string(), "first".to_string());
    docs.open("u".to_string(), "second".to_string());
    assert_eq!(docs.get("u"), Some("second"));
    docs.close("u");
    docs.close("u");
    assert_eq!(docs.get("u"), None);
}
