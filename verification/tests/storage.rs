use keeper_secrets::dict::Dict;
use keeper_secrets::key_value_storage::FileKeyValueStorage;

#[test]
fn location_defaults_to_the_client_config() {
    assert_eq!(FileKeyValueStorage::new(None).config_file_location(), "client-config.json");
    assert_eq!(FileKeyValueStorage::new(Some("/tmp/ksm.json")).config_file_location(), "/tmp/ksm.json");
}

#[test]
fn a_new_store_is_empty() {
    let store = FileKeyValueStorage::new(None);
    assert_eq!(store.get("client_key"), None);
    assert_eq!(store.save(), "{}");
}

#[test]
fn set_then_get_returns_the_value() {
    let mut store = FileKeyValueStorage::new(None);
    let _ = store.set("client_key", "abc".to_string());
    assert_eq!(store.get("client_key"), Some(&"abc".to_string()));
    let _ = store.set("client_key", "def".to_string());
    assert_eq!(store.get("client_key"), Some(&"def".to_string()));
}

#[test]
fn delete_then_get_returns_none() {
    let mut store = FileKeyValueStorage::new(None);
    let _ = store.set("client_key", "abc".to_string());
    let _ = store.set("app_key", "xyz".to_string());
    let _ = store.delete("client_key");
    assert_eq!(store.get("client_key"), None);
    assert_eq!(store.get("app_key"), Some(&"xyz".to_string()));
    let _ = store.delete("never there");
    assert_eq!(store.get("app_key"), Some(&"xyz".to_string()));
}

#[test]
fn every_change_returns_the_whole_document() {
    let mut store = FileKeyValueStorage::new(None);
    assert_eq!(store.set("b", "2".to_string()), r#"{"b":"2"}"#);
    assert_eq!(store.set("a", "1".to_string()), r#"{"a":"1","b":"2"}"#);
    assert_eq!(store.set("b", "3".to_string()), r#"{"a":"1","b":"3"}"#);
    assert_eq!(store.delete("a"), r#"{"b":"3"}"#);
    assert_eq!(store.delete("b"), "{}");
    assert_eq!(store.save(), "{}");
}

#[test]
fn reopening_from_the_document_reproduces_the_mapping() {
    let mut store = FileKeyValueStorage::new(Some("a.json"));
    let _ = store.set("client_key", "quote \" and \\ and \n".to_string());
    let _ = store.set("hostname", "keepersecurity.com".to_string());
    let document = store.set("owner_public_key", "\u{e9}\u{1f600}".to_string());

    let mut reopened = FileKeyValueStorage::new(Some("a.json"));
    reopened.load(&document);
    assert_eq!(reopened.get("client_key"), Some(&"quote \" and \\ and \n".to_string()));
    assert_eq!(reopened.get("hostname"), Some(&"keepersecurity.com".to_string()));
    assert_eq!(reopened.get("owner_public_key"), Some(&"\u{e9}\u{1f600}".to_string()));
    assert_eq!(reopened.save(), document);
}

#[test]
fn missing_or_empty_content_leaves_the_store_empty() {
    let mut store = FileKeyValueStorage::new(None);
    store.load("");
    assert_eq!(store.save(), "{}");
}

#[test]
fn empty_content_leaves_what_the_store_holds() {
    let mut store = FileKeyValueStorage::new(None);
    let _ = store.set("a", "1".to_string());
    store.load("");
    assert_eq!(store.get("a"), Some(&"1".to_string()));
}

#[test]
fn content_that_is_no_object_of_strings_gives_an_empty_store() {
    for content in ["garbage", "[]", r#"{"a":1}"#, "{"] {
        let mut store = FileKeyValueStorage::new(None);
        let _ = store.set("kept", "no".to_string());
        store.load(content);
        assert_eq!(store.get("kept"), None);
        assert_eq!(store.save(), "{}");
    }
}

#[test]
fn loading_replaces_what_the_store_held() {
    let mut store = FileKeyValueStorage::new(None);
    let _ = store.set("old", "1".to_string());
    store.load(r#"{"new":"2"}"#);
    assert_eq!(store.get("old"), None);
    assert_eq!(store.get("new"), Some(&"2".to_string()));
}

#[test]
fn dictionary_insert_get_remove() {
    let mut dict = Dict::new();
    assert_eq!(dict.get("a"), None);
    dict.insert("a", "1".to_string());
    dict.insert("b", "2".to_string());
    dict.insert("a", "3".to_string());
    assert_eq!(dict.get("a"), Some(&"3".to_string()));
    assert_eq!(dict.get("b"), Some(&"2".to_string()));
    assert_eq!(dict.as_entries().len(), 2);
    dict.remove("a");
    assert_eq!(dict.get("a"), None);
    assert_eq!(dict.get("b"), Some(&"2".to_string()));
    dict.remove("a");
    assert_eq!(dict.as_entries().len(), 1);
}
