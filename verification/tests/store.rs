use clipmagic::config::{ClipEntry, Config, CAPACITY};
use clipmagic::store::ActionStore;

fn entry(text: &str, push_to_clipboard: bool) -> ClipEntry {
    ClipEntry::new(String::from(text), push_to_clipboard)
}

#[test]
fn new_store_holds_default_entries() {
    let store = ActionStore::new();
    for slot in 0..CAPACITY {
        let e = store.get(slot);
        assert_eq!(e.text, "");
        assert!(!e.push_to_clipboard);
    }
}

#[test]
fn replace_all_exposes_given_entries() {
    let mut store = ActionStore::new();
    store.replace_all(vec![entry("hello", true), entry("world", false), entry("", false)]);
    assert_eq!(store.get(0).text, "hello");
    assert!(store.get(0).push_to_clipboard);
    assert_eq!(store.get(1).text, "world");
    assert!(!store.get(1).push_to_clipboard);
    assert_eq!(store.get(2).text, "");
    assert!(!store.get(2).push_to_clipboard);
}

#[test]
fn replace_all_pads_short_list_with_defaults() {
    let mut store = ActionStore::new();
    store.replace_all(vec![entry("only", true)]);
    assert_eq!(store.get(0).text, "only");
    assert!(store.get(0).push_to_clipboard);
    for slot in 1..CAPACITY {
        let e = store.get(slot);
        assert_eq!(e.text, "");
        assert!(!e.push_to_clipboard);
    }
}

#[test]
fn replace_all_truncates_long_list() {
    let mut store = ActionStore::new();
    store.replace_all(vec![
        entry("a", false),
        entry("b", true),
        entry("c", false),
        entry("d", true),
    ]);
    assert_eq!(store.get(0).text, "a");
    assert_eq!(store.get(1).text, "b");
    assert_eq!(store.get(2).text, "c");
}

#[test]
fn replace_all_while_reading_swaps_whole_table() {
    let mut store = ActionStore::new();
    store.replace_all(vec![entry("first", true)]);
    store.replace_all(vec![entry("second", false), entry("third", true)]);
    assert_eq!(store.get(0).text, "second");
    assert!(!store.get(0).push_to_clipboard);
    assert_eq!(store.get(1).text, "third");
    assert_eq!(store.get(2).text, "");
}

#[test]
fn config_default_is_capacity_default_entries() {
    let config = Config::default();
    assert_eq!(config.entries.len(), CAPACITY);
    for e in &config.entries {
        assert_eq!(e.text, "");
        assert!(!e.push_to_clipboard);
    }
}

#[test]
fn config_new_keeps_entries() {
    let config = Config::new(vec![entry("x", true)]);
    assert_eq!(config.entries.len(), 1);
    assert_eq!(config.entries[0].text, "x");
    assert!(config.entries[0].push_to_clipboard);
}

#[test]
fn clip_entry_new_keeps_fields() {
    let e = ClipEntry::new(String::from("snippet"), true);
    assert_eq!(e.text, "snippet");
    assert!(e.push_to_clipboard);
}
