use clipboard_manager::manager::{ClipboardManager, CONFIG_FILE_NAME};
use clipboard_manager::register::{ClipboardRegister, ClipboardState};

fn sorted(mut v: Vec<(String, ClipboardRegister)>) -> Vec<(String, String, String)> {
    v.sort_by(|a, b| a.0.cmp(&b.0));
    v.into_iter().map(|(n, r)| (n, r.content, r.shortcut)).collect()
}

fn reg(content: &str, shortcut: &str) -> ClipboardRegister {
    ClipboardRegister { content: content.to_string(), shortcut: shortcut.to_string() }
}

fn empty_manager() -> ClipboardManager {
    ClipboardManager::from_load_result(Ok(ClipboardState::new()))
}

#[test]
fn new_store_is_empty() {
    let s = ClipboardState::new();
    assert!(s.get_all_registers().is_empty());
    assert_eq!(s.get_register_content("clip1"), None);
}

#[test]
fn add_new_name_gives_empty_content() {
    let mut s = ClipboardState::new();
    assert!(s.add_register("clip1".to_string(), "cmd+1".to_string()));
    assert_eq!(s.get_register_content("clip1"), Some(String::new()));
    assert_eq!(sorted(s.get_all_registers()), vec![("clip1".to_string(), String::new(), "cmd+1".to_string())]);
}

#[test]
fn add_taken_name_fails_and_keeps_register() {
    let mut s = ClipboardState::new();
    assert!(s.add_register("clip1".to_string(), "cmd+1".to_string()));
    assert!(s.update_register_content("clip1", "kept".to_string()));
    assert!(!s.add_register("clip1".to_string(), "cmd+2".to_string()));
    assert_eq!(sorted(s.get_all_registers()), vec![("clip1".to_string(), "kept".to_string(), "cmd+1".to_string())]);
}

#[test]
fn update_absent_name_fails_and_creates_nothing() {
    let mut s = ClipboardState::new();
    assert!(!s.update_register_content("ghost", "text".to_string()));
    assert!(!s.update_shortcut("ghost", "cmd+9".to_string()));
    assert_eq!(s.get_register_content("ghost"), None);
    assert!(s.get_all_registers().is_empty());
}

#[test]
fn remove_succeeds_once() {
    let mut s = ClipboardState::new();
    assert!(s.add_register("a".to_string(), "s1".to_string()));
    assert!(s.remove_register("a"));
    assert!(!s.remove_register("a"));
    assert_eq!(s.get_register_content("a"), None);
}

#[test]
fn last_content_write_wins() {
    let mut m = empty_manager();
    assert!(m.add_register("a", "s1"));
    assert!(m.update_register_content("a", "first"));
    assert!(m.update_register_content("a", "hello"));
    assert_eq!(m.get_register_content("a"), Some("hello".to_string()));
}

#[test]
fn update_shortcut_keeps_content() {
    let mut m = empty_manager();
    assert!(m.add_register("a", "s1"));
    assert!(m.update_register_content("a", "hello"));
    assert!(m.update_shortcut("a", "s9"));
    assert_eq!(sorted(m.get_all_registers()), vec![("a".to_string(), "hello".to_string(), "s9".to_string())]);
}

#[test]
fn listing_follows_adds_and_removes() {
    let mut m = empty_manager();
    assert!(m.add_register("a", "s1"));
    assert!(m.add_register("b", "s2"));
    assert_eq!(
        sorted(m.get_all_registers()),
        vec![
            ("a".to_string(), String::new(), "s1".to_string()),
            ("b".to_string(), String::new(), "s2".to_string()),
        ]
    );
    assert!(m.remove_register("a"));
    assert_eq!(sorted(m.get_all_registers()), vec![("b".to_string(), String::new(), "s2".to_string())]);
}

#[test]
fn listing_is_a_snapshot() {
    let mut m = empty_manager();
    assert!(m.add_register("a", "s1"));
    let before = m.get_all_registers();
    assert!(m.update_register_content("a", "later"));
    assert!(m.remove_register("a"));
    assert_eq!(sorted(before), vec![("a".to_string(), String::new(), "s1".to_string())]);
}

#[test]
fn rebuilding_from_listing_restores_store() {
    let mut s = ClipboardState::new();
    assert!(s.add_register("a".to_string(), "s1".to_string()));
    assert!(s.add_register("b".to_string(), "s2".to_string()));
    assert!(s.add_register("c".to_string(), "s3".to_string()));
    assert!(s.update_register_content("b", "two".to_string()));
    let restored = ClipboardState::from_registers(s.get_all_registers());
    assert_eq!(sorted(restored.get_all_registers()), sorted(s.get_all_registers()));
    assert_eq!(restored.get_all_registers().len(), 3);
    assert_eq!(restored.get_register_content("b"), Some("two".to_string()));
}

#[test]
fn rebuilding_keeps_later_duplicate() {
    let s = ClipboardState::from_registers(vec![
        ("a".to_string(), reg("old", "s1")),
        ("b".to_string(), reg("", "s2")),
        ("a".to_string(), reg("new", "s3")),
    ]);
    assert_eq!(
        sorted(s.get_all_registers()),
        vec![
            ("a".to_string(), "new".to_string(), "s3".to_string()),
            ("b".to_string(), String::new(), "s2".to_string()),
        ]
    );
}

#[test]
fn missing_document_loads_empty_store() {
    let r = ClipboardState::from_document(None);
    assert!(r.unwrap().get_all_registers().is_empty());
}

#[test]
fn read_document_loads_its_registers() {
    let r = ClipboardState::from_document(Some(Ok(vec![("a".to_string(), reg("x", "s1"))])));
    assert_eq!(r.unwrap().get_register_content("a"), Some("x".to_string()));
}

#[test]
fn malformed_document_is_an_error_and_manager_falls_back_to_empty() {
    let r = ClipboardState::from_document(Some(Err("expected value at line 1".to_string())));
    assert_eq!(r.as_ref().err(), Some(&"expected value at line 1".to_string()));
    let m = ClipboardManager::from_load_result(r);
    assert!(m.get_all_registers().is_empty());
}

#[test]
fn manager_keeps_loaded_store() {
    let loaded = ClipboardState::from_registers(vec![("a".to_string(), reg("x", "s1"))]);
    let m = ClipboardManager::from_load_result(Ok(loaded));
    assert_eq!(m.get_register_content("a"), Some("x".to_string()));
    assert_eq!(sorted(m.state().get_all_registers()), vec![("a".to_string(), "x".to_string(), "s1".to_string())]);
}

#[test]
fn empty_name_and_content_are_ordinary_values() {
    let mut m = empty_manager();
    assert!(m.add_register("", ""));
    assert!(!m.add_register("", "x"));
    assert!(m.update_register_content("", ""));
    assert_eq!(m.get_register_content(""), Some(String::new()));
}

#[test]
fn config_file_name_is_hidden_json() {
    assert_eq!(CONFIG_FILE_NAME, ".clipboard_manager_config.json");
}
