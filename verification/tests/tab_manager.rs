use shellmars::models::connection::TabInfo;
use shellmars::services::storage::{ConnectionStorage, StorageError};
use shellmars::services::tab_manager::SshTabManager;

fn store() -> ConnectionStorage {
    ConnectionStorage::new(vec![3u8; 32])
}

fn tab(id: &str, connection_id: &str, created_at: i64) -> TabInfo {
    TabInfo::with_identity(id.to_string(), connection_id.to_string(), format!("T {}", id), created_at)
}

fn ids(tabs: &[TabInfo]) -> Vec<String> {
    tabs.iter().map(|t| t.id.clone()).collect()
}

fn active_in_store(store: &ConnectionStorage) -> Vec<String> {
    store.load_tabs().into_iter().filter(|t| t.active).map(|t| t.id).collect()
}

#[test]
fn tabs_list_comes_newest_first_and_fills_memory() {
    let mut store = store();
    assert!(store.save_tabs(vec![tab("a", "c1", 10), tab("b", "c2", 30), tab("c", "c3", 20)]).is_ok());
    let mut manager = SshTabManager::new();
    assert!(manager.get_tab_by_connection_id("c2").is_none());
    let list = manager.get_tabs_list(&store);
    assert_eq!(ids(&list), vec!["b", "c", "a"]);
    assert_eq!(manager.get_tab_by_connection_id("c2").map(|t| t.id), Some("b".to_string()));
    assert!(manager.get_active_tab().is_none());
}

#[test]
fn adding_a_tab_makes_it_the_only_active_one_in_memory() {
    let mut store = store();
    let mut manager = SshTabManager::new();
    let first = manager.add_tab_at(&mut store, tab("a", "c1", 5), 5).ok().expect("added");
    assert_eq!(first, "a");
    let second = manager.add_tab_at(&mut store, tab("b", "c2", 6), 6).ok().expect("added");
    assert_eq!(second, "b");
    assert_eq!(manager.get_active_tab().map(|t| t.id), Some("b".to_string()));
    assert_eq!(ids(&store.load_tabs()), vec!["a", "b"]);
    // The store holds the tabs as they were handed in.
    assert!(active_in_store(&store).is_empty());
}

#[test]
fn adding_a_tab_for_a_connection_that_has_one_activates_that_one() {
    let mut store = store();
    let mut manager = SshTabManager::new();
    assert!(manager.add_tab_at(&mut store, tab("a", "c1", 5), 5).is_ok());
    assert!(manager.add_tab_at(&mut store, tab("b", "c2", 6), 6).is_ok());
    let again = manager.add_tab_at(&mut store, tab("z", "c1", 7), 70).ok().expect("exists");
    assert_eq!(again, "a");
    assert_eq!(ids(&store.load_tabs()), vec!["a", "b"]);
    assert_eq!(active_in_store(&store), vec!["a"]);
    let active = manager.get_active_tab().expect("one is active");
    assert_eq!(active.id, "a");
    assert_eq!(active.updated_at, 70);
}

#[test]
fn adding_a_tab_under_a_fresh_identifier() {
    let mut store = store();
    let mut manager = SshTabManager::new();
    let id = manager.add_tab(&mut store, "c1".to_string(), "Title".to_string()).ok().expect("added");
    assert_eq!(id.len(), 36);
    let saved = store.load_tabs();
    assert_eq!(saved.len(), 1);
    assert_eq!(saved[0].id, id);
    assert_eq!(saved[0].title, "Title");
    let same = manager.add_tab(&mut store, "c1".to_string(), "Other".to_string()).ok().expect("exists");
    assert_eq!(same, id);
    assert_eq!(store.load_tabs().len(), 1);
}

#[test]
fn activating_a_tab_that_memory_does_not_hold_fails_after_the_store_changed() {
    let mut store = store();
    assert!(store.save_tabs(vec![tab("a", "c1", 10), tab("b", "c2", 20)]).is_ok());
    let mut manager = SshTabManager::new();
    let result = manager.set_active_tab_at(&mut store, "a", 99);
    assert!(matches!(result, Err(StorageError::TabNotFound)));
    assert_eq!(active_in_store(&store), vec!["a"]);
    // Unknown to the store: nothing changes anywhere.
    let result = manager.set_active_tab_at(&mut store, "zz", 100);
    assert!(matches!(result, Err(StorageError::TabNotFound)));
    assert_eq!(active_in_store(&store), vec!["a"]);
}

#[test]
fn activating_a_tab_moves_the_mark_in_both() {
    let mut store = store();
    assert!(store.save_tabs(vec![tab("a", "c1", 10), tab("b", "c2", 20)]).is_ok());
    let mut manager = SshTabManager::new();
    manager.get_tabs_list(&store);
    assert!(manager.set_active_tab_at(&mut store, "a", 50).is_ok());
    assert!(manager.set_active_tab_at(&mut store, "b", 60).is_ok());
    assert_eq!(active_in_store(&store), vec!["b"]);
    let active = manager.get_active_tab().expect("active");
    assert_eq!((active.id.as_str(), active.updated_at), ("b", 60));
    assert!(manager.set_active_tab(&mut store, "a").is_ok());
    assert_eq!(manager.get_active_tab().map(|t| t.id), Some("a".to_string()));
}

#[test]
fn removing_the_active_tab_activates_the_first_one_left_in_the_store() {
    let mut store = store();
    let mut manager = SshTabManager::new();
    assert!(manager.add_tab_at(&mut store, tab("a", "c1", 5), 5).is_ok());
    assert!(manager.add_tab_at(&mut store, tab("b", "c2", 6), 6).is_ok());
    assert!(manager.add_tab_at(&mut store, tab("c", "c3", 7), 7).is_ok());
    assert!(manager.remove_tab(&mut store, "c").is_ok());
    assert_eq!(ids(&store.load_tabs()), vec!["a", "b"]);
    assert_eq!(active_in_store(&store), vec!["a"]);
    assert!(manager.get_tab_by_connection_id("c3").is_none());
    // Memory keeps its own marks: none is active there now.
    assert!(manager.get_active_tab().is_none());
}

#[test]
fn removing_an_inactive_or_last_tab_activates_nothing() {
    let mut store = store();
    let mut manager = SshTabManager::new();
    assert!(manager.add_tab_at(&mut store, tab("a", "c1", 5), 5).is_ok());
    assert!(manager.add_tab_at(&mut store, tab("b", "c2", 6), 6).is_ok());
    assert!(manager.remove_tab(&mut store, "a").is_ok());
    assert!(active_in_store(&store).is_empty());
    assert_eq!(manager.get_active_tab().map(|t| t.id), Some("b".to_string()));
    assert!(manager.remove_tab(&mut store, "b").is_ok());
    assert!(store.load_tabs().is_empty());
    assert!(manager.get_active_tab().is_none());
}

#[test]
fn removing_an_unknown_tab_fails() {
    let mut store = store();
    let mut manager = SshTabManager::new();
    assert!(manager.add_tab_at(&mut store, tab("a", "c1", 5), 5).is_ok());
    assert!(matches!(manager.remove_tab(&mut store, "zz"), Err(StorageError::TabNotFound)));
    assert_eq!(ids(&store.load_tabs()), vec!["a"]);
    // Held by the store only: the store lets it go, memory reports it missing.
    assert!(store.add_tab(tab("s", "c9", 1)).is_ok());
    assert!(matches!(manager.remove_tab(&mut store, "s"), Err(StorageError::TabNotFound)));
    assert_eq!(ids(&store.load_tabs()), vec!["a"]);
}

#[test]
fn closing_all_tabs_empties_both() {
    let mut store = store();
    let mut manager = SshTabManager::new();
    assert!(manager.add_tab_at(&mut store, tab("a", "c1", 5), 5).is_ok());
    assert!(manager.close_all_tabs(&mut store).is_ok());
    assert!(store.load_tabs().is_empty());
    assert!(manager.get_tab_by_connection_id("c1").is_none());
}

#[test]
fn closing_other_tabs_keeps_one() {
    let mut store = store();
    let mut manager = SshTabManager::new();
    assert!(manager.add_tab_at(&mut store, tab("a", "c1", 5), 5).is_ok());
    assert!(manager.add_tab_at(&mut store, tab("b", "c2", 6), 6).is_ok());
    assert!(manager.add_tab_at(&mut store, tab("c", "c3", 7), 7).is_ok());
    assert!(matches!(manager.close_other_tabs(&mut store, "zz"), Err(StorageError::TabNotFound)));
    assert_eq!(store.load_tabs().len(), 3);
    assert!(manager.close_other_tabs(&mut store, "b").is_ok());
    assert_eq!(ids(&store.load_tabs()), vec!["b"]);
    assert!(manager.get_tab_by_connection_id("c1").is_none());
    assert_eq!(manager.get_tab_by_connection_id("c2").map(|t| t.id), Some("b".to_string()));
}
