use restate_sdk::entry::{CompletionResult, GetStateKeysResult};
use restate_sdk::store::{LocalStateStore, StateEntry};

fn entry(k: &str, v: &str) -> StateEntry {
    StateEntry { key: k.as_bytes().to_vec(), value: v.as_bytes().to_vec() }
}

#[test]
fn test_store() {
    let store = LocalStateStore::new(false, vec![entry("a", "1")]);
    let mut value = None;
    assert!(store.try_complete_get(&"a".to_string(), &mut value));
    assert_eq!(value, Some(CompletionResult::Success(b"1".to_vec())));
    // The whole state is known: an unknown key is empty.
    let mut value = None;
    assert!(store.try_complete_get(&"b".to_string(), &mut value));
    assert_eq!(value, Some(CompletionResult::Empty));
}

#[test]
fn partial_store_asks_the_runtime() {
    let store = LocalStateStore::new(true, vec![entry("a", "1")]);
    let mut value = None;
    assert!(!store.try_complete_get(&"b".to_string(), &mut value));
    assert_eq!(value, None);
    let mut keys = None;
    assert!(!store.try_complete_get_keys(&mut keys));
    assert_eq!(keys, None);
}

#[test]
fn later_entry_of_a_key_wins() {
    let store = LocalStateStore::new(false, vec![entry("a", "1"), entry("a", "2")]);
    let mut value = None;
    assert!(store.try_complete_get(&"a".to_string(), &mut value));
    assert_eq!(value, Some(CompletionResult::Success(b"2".to_vec())));
}

#[test]
fn keys_of_a_complete_store() {
    let mut store = LocalStateStore::new(false, vec![entry("a", "1")]);
    store.set("b".to_string(), b"2".to_vec());
    let mut keys = None;
    assert!(store.try_complete_get_keys(&mut keys));
    match keys {
        Some(GetStateKeysResult::Result(mut ks)) => {
            ks.sort();
            assert_eq!(ks, vec![b"a".to_vec(), b"b".to_vec()]);
        }
        other => panic!("unexpected {:?}", other),
    }
}

#[test]
fn read_after_clear_is_empty_and_clear_all_forgets() {
    let mut store = LocalStateStore::new(false, vec![entry("a", "1")]);
    store.clear("a".to_string());
    let mut value = None;
    assert!(store.try_complete_get(&"a".to_string(), &mut value));
    assert_eq!(value, Some(CompletionResult::Empty));
    store.add("c".to_string(), b"3".to_vec());
    store.clear_all();
    let mut keys = None;
    assert!(store.try_complete_get_keys(&mut keys));
    assert_eq!(keys, Some(GetStateKeysResult::Result(vec![])));
}
