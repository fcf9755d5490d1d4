use penswitcher::hotkeys::{find_matching_sequence, Key, KeyListener};
use penswitcher::models::{ProcessWindow, ShortcutStore, UiNode};

fn window(hwnd: isize) -> ProcessWindow {
    ProcessWindow {
        process_id: 42,
        title: "Notepad".to_string(),
        hwnd,
        class_name: "Notepad".to_string(),
        exe_path: "C:\\Windows\\notepad.exe".to_string(),
        process_name: "notepad.exe".to_string(),
        bounds: None,
    }
}

fn node(id: &str) -> UiNode {
    UiNode {
        id: id.to_string(),
        parent_id: None,
        name: "Save".to_string(),
        automation_id: "Not Supported".to_string(),
        control_type: "Button".to_string(),
        class_name: "Not Supported".to_string(),
        framework_id: "Win32".to_string(),
        process_id: 42,
        bounds: None,
        depth: 0,
        has_children: false,
    }
}

fn add(store: &mut ShortcutStore, hwnd: isize, node_id: &str, supports: bool) {
    let process = window(hwnd);
    let resolved = if store.membership_needs_node(&process, node_id, true) {
        Some((vec![node("root"), node(node_id)], supports))
    } else {
        None
    };
    store.set_shortcut_membership(process, node_id, true, resolved);
}

#[test]
fn new_store_is_empty() {
    let store = ShortcutStore::default();
    assert!(store.items.is_empty());
}

#[test]
fn checking_a_node_adds_one_shortcut() {
    let mut store = ShortcutStore::default();
    add(&mut store, 100, "root/2", true);
    assert_eq!(store.items.len(), 1);
    let item = &store.items[0];
    assert_eq!(item.id, "100:root/2");
    assert_eq!(item.node.id, "root/2");
    assert_eq!(item.ancestors.len(), 2);
    assert_eq!(item.hotkey, "");
    assert!(!item.enabled);
    assert!(item.supports_invoke);
    assert_eq!(item.status, "未绑定");
    assert!(store.shortcut_enabled(&window(100), "root/2"));
    assert!(!store.shortcut_enabled(&window(101), "root/2"));
}

#[test]
fn a_node_that_cannot_be_invoked_says_so() {
    let mut store = ShortcutStore::default();
    add(&mut store, 7, "root", false);
    assert_eq!(store.items[0].status, "无法调用");
}

#[test]
fn checking_twice_keeps_one_shortcut() {
    let mut store = ShortcutStore::default();
    add(&mut store, 100, "root/2", true);
    assert!(!store.membership_needs_node(&window(100), "root/2", true));
    add(&mut store, 100, "root/2", true);
    assert_eq!(store.items.len(), 1);
}

#[test]
fn unchecking_removes_the_shortcut() {
    let mut store = ShortcutStore::default();
    add(&mut store, 100, "root/2", true);
    add(&mut store, 100, "root/3", true);
    store.set_shortcut_membership(window(100), "root/2", false, None);
    assert_eq!(store.items.len(), 1);
    assert_eq!(store.items[0].id, "100:root/3");
    assert!(!store.contains_id("100:root/2"));
}

#[test]
fn removing_by_id_keeps_the_others_in_order() {
    let mut store = ShortcutStore::default();
    add(&mut store, 1, "root/0", true);
    add(&mut store, 1, "root/1", true);
    add(&mut store, 1, "root/2", true);
    store.remove_shortcut("1:root/1");
    let ids: Vec<&str> = store.items.iter().map(|i| i.id.as_str()).collect();
    assert_eq!(ids, vec!["1:root/0", "1:root/2"]);
    store.remove_shortcut("nope");
    assert_eq!(store.items.len(), 2);
}

#[test]
fn hotkeys_are_trimmed_and_must_be_unique() {
    let mut store = ShortcutStore::default();
    add(&mut store, 1, "root/0", true);
    add(&mut store, 1, "root/1", true);
    assert_eq!(store.set_shortcut_hotkey("1:root/0", "  Ctrl+A "), Ok(()));
    assert_eq!(store.items[0].hotkey, "Ctrl+A");
    assert_eq!(store.set_shortcut_hotkey("1:root/1", "ctrl+a"), Err("快捷键已被其他元素占用".to_string()));
    assert_eq!(store.items[1].hotkey, "");
    assert_eq!(store.set_shortcut_hotkey("1:root/0", "CTRL+A"), Ok(()));
    assert_eq!(store.items[0].hotkey, "CTRL+A");
    assert_eq!(store.set_shortcut_hotkey("1:root/1", "  "), Ok(()));
    assert_eq!(store.set_shortcut_hotkey("missing", "Ctrl+B"), Ok(()));
    assert_eq!(store.items[0].hotkey, "CTRL+A");
    assert_eq!(store.items[1].hotkey, "");
}

#[test]
fn rebuilding_sets_states_and_registers_valid_hotkeys() {
    let mut store = ShortcutStore::default();
    add(&mut store, 1, "root/0", true);
    add(&mut store, 1, "root/1", true);
    add(&mut store, 1, "root/2", false);
    add(&mut store, 1, "root/3", true);
    store.set_shortcut_hotkey("1:root/0", "Ctrl+Shift+K").unwrap();
    store.set_shortcut_hotkey("1:root/1", "Ctrl+Nope").unwrap();
    store.set_shortcut_hotkey("1:root/2", "Alt+X").unwrap();
    let registry = store.rebuild_hotkeys();
    assert_eq!(registry.len(), 1);
    assert_eq!(registry[0].item_id, "1:root/0");
    assert_eq!(registry[0].modifiers, vec![Key::ControlLeft, Key::ShiftLeft]);
    assert_eq!(registry[0].keys, vec![Key::KeyK]);
    assert!(store.items[0].enabled);
    assert_eq!(store.items[0].status, "待命");
    assert!(!store.items[1].enabled);
    assert_eq!(store.items[1].status, "无法解析按键: Nope");
    assert_eq!(store.items[2].status, "无法调用");
    assert!(!store.items[3].enabled);
    assert_eq!(store.items[3].status, "未绑定");
    let again = store.rebuild_hotkeys();
    assert_eq!(again.len(), 1);
    assert_eq!(store.items[0].status, "待命");
    assert_eq!(store.items[1].status, "无法解析按键: Nope");
}

#[test]
fn invoking_a_missing_shortcut_fails() {
    let mut store = ShortcutStore::default();
    add(&mut store, 9, "root/5", true);
    assert_eq!(store.invoke_shortcut("9:root/5").unwrap().node.id, "root/5");
    assert_eq!(store.invoke_shortcut("9:root/6").unwrap_err(), "快捷操作不存在");
    assert!(store.find_item("9:root/6").is_none());
}

#[test]
fn checking_then_unchecking_restores_the_shortcuts() {
    let mut store = ShortcutStore::default();
    add(&mut store, 3, "root/0", true);
    add(&mut store, 3, "root/4", false);
    let before: Vec<String> = store.items.iter().map(|i| i.id.clone()).collect();
    add(&mut store, 3, "root/1/2", true);
    assert_eq!(store.items.len(), 3);
    store.set_shortcut_membership(window(3), "root/1/2", false, None);
    let after: Vec<String> = store.items.iter().map(|i| i.id.clone()).collect();
    assert_eq!(after, before);
}

#[test]
fn ready_shortcut_fires_after_rebuild() {
    let mut store = ShortcutStore::default();
    add(&mut store, 2, "root/0", true);
    add(&mut store, 2, "root/1", true);
    store.set_shortcut_hotkey("2:root/1", "Alt+Shift+F5").unwrap();
    let registry = store.rebuild_hotkeys();
    assert_eq!(store.items[1].status, "待命");
    let mut listener = KeyListener::new();
    for k in [Key::Alt, Key::ShiftLeft, Key::F5] {
        listener.on_key_press(k);
    }
    assert_eq!(listener.on_key_release(Key::Alt), None);
    let (held, typed) = listener.on_key_release(Key::ShiftLeft).unwrap();
    let hit = find_matching_sequence(&registry, &held, &typed).unwrap();
    assert_eq!(registry[hit].item_id, "2:root/1");
}
