use penswitcher::activation::{InvokePhase, InvokeTarget};
use penswitcher::models::{ElementProps, ProcessWindow, RectDto, ScreenRect, ShortcutItem, ShortcutStore};
use penswitcher::overlay::{overlay_plan, FramePiece, OverlayPlan};
use penswitcher::uia::{
    ancestor_walk_step, build_details, build_path_from_ancestors, child_position, debug_uia_tree,
    element_bounds, element_details, get_element_details, handle_element_matches,
    invoke_shortcut_item, load_children, load_root, match_child_window, picked_payload,
    shortcut_node, shortcut_node_with_ancestors, DesktopChild, NodeResolver,
};
use penswitcher::utils::{
    bool_property, err, format_rect, lock_err, prop_string, rect_to_dto, row, shortcut_id,
    win_err, yes_no,
};
use penswitcher::windows_api::{
    cursor_root_accepted, dedup_and_sort_windows, listed_window, process_from_hwnd,
    process_name_from_path, top_level_candidate,
};

fn props(name: &str, children: usize) -> ElementProps {
    ElementProps {
        name: Some(name.to_string()),
        automation_id: Some("   ".to_string()),
        control_type: Some("Button".to_string()),
        localized_control_type: Some("按钮".to_string()),
        class_name: None,
        framework_id: Some("Win32".to_string()),
        help_text: None,
        native_window_handle: Some("HWND(0x1)".to_string()),
        process_id: Some(42),
        is_enabled: Some(true),
        is_offscreen: Some(false),
        is_password: None,
        bounds: Some(ScreenRect { left: 10, top: 20, right: 109, bottom: 69 }),
        supports_invoke: true,
        value_pattern: Some(false),
        selection_item_pattern: None,
        legacy_accessible_pattern: Some(true),
        toggle_pattern: Some(false),
        text_pattern: Some(false),
        child_count: children,
    }
}

fn window(hwnd: isize, title: &str) -> ProcessWindow {
    ProcessWindow {
        process_id: 1,
        title: title.to_string(),
        hwnd,
        class_name: String::new(),
        exe_path: String::new(),
        process_name: String::new(),
        bounds: None,
    }
}

#[test]
fn rect_sizes_count_both_edges_and_never_go_negative() {
    assert_eq!(rect_to_dto(ScreenRect { left: 0, top: 0, right: 9, bottom: 19 }), RectDto { x: 0, y: 0, width: 10, height: 20 });
    assert_eq!(rect_to_dto(ScreenRect { left: 5, top: 5, right: 1, bottom: 2 }), RectDto { x: 5, y: 5, width: 0, height: 0 });
    assert_eq!(format_rect(ScreenRect { left: -8, top: 0, right: 9, bottom: 19 }), "{X=-8,Y=0,Width=18,Height=20}");
}

#[test]
fn property_texts() {
    assert_eq!(yes_no(true), "Yes");
    assert_eq!(yes_no(false), "No");
    assert_eq!(bool_property(Some(true)), "Yes");
    assert_eq!(bool_property(None), "Not Supported");
    assert_eq!(prop_string(Some("OK".to_string())), "OK");
    assert_eq!(prop_string(Some(" \t".to_string())), "Not Supported");
    assert_eq!(prop_string(None), "Not Supported");
    let r = row("Name", "x".to_string());
    assert_eq!((r.name.as_str(), r.value.as_str(), r.action), ("Name", "x", None));
}

#[test]
fn error_texts() {
    assert_eq!(err("boom"), "boom");
    assert_eq!(lock_err("poisoned"), "锁状态异常: poisoned");
    assert_eq!(win_err(Some(3)), "Some(3)");
    assert_eq!(shortcut_id(&window(77, "t"), "root/1"), "77:root/1");
}

#[test]
fn root_node() {
    let nodes = load_root(&props("Main", 3));
    assert_eq!(nodes.len(), 1);
    let n = &nodes[0];
    assert_eq!(n.id, "root");
    assert_eq!(n.parent_id, None);
    assert_eq!(n.name, "Main");
    assert_eq!(n.automation_id, "Not Supported");
    assert_eq!(n.class_name, "Not Supported");
    assert_eq!(n.process_id, 42);
    assert_eq!(n.bounds, Some(RectDto { x: 10, y: 20, width: 100, height: 50 }));
    assert_eq!(n.depth, 0);
    assert!(n.has_children);
}

#[test]
fn child_nodes_get_indexed_ids() {
    let kids = vec![props("a", 0), props("b", 2)];
    let nodes = load_children("root/4", &kids);
    assert_eq!(nodes.len(), 2);
    assert_eq!(nodes[0].id, "root/4/0");
    assert_eq!(nodes[1].id, "root/4/1");
    assert_eq!(nodes[1].parent_id, Some("root/4".to_string()));
    assert_eq!(nodes[1].depth, 2);
    assert!(!nodes[0].has_children);
    assert!(nodes[1].has_children);
}

#[test]
fn details_pane_groups() {
    let groups = build_details(&props("Save", 0));
    let titles: Vec<&str> = groups.iter().map(|g| g.title.as_str()).collect();
    assert_eq!(titles, vec!["Identification", "Details", "Pattern Support", "Invoke"]);
    let ident: Vec<(&str, &str)> = groups[0].rows.iter().map(|r| (r.name.as_str(), r.value.as_str())).collect();
    assert_eq!(ident, vec![
        ("AutomationId", "Not Supported"),
        ("Name", "Save"),
        ("ClassName", "Not Supported"),
        ("ControlType", "Button"),
        ("LocalizedControlType", "按钮"),
        ("FrameworkType", "Win32"),
        ("FrameworkId", "Win32"),
        ("ProcessId", "42"),
    ]);
    let details: Vec<(&str, &str)> = groups[1].rows.iter().map(|r| (r.name.as_str(), r.value.as_str())).collect();
    assert_eq!(details, vec![
        ("IsEnabled", "true"),
        ("IsOffscreen", "false"),
        ("BoundingRectangle", "{X=10,Y=20,Width=100,Height=50}"),
        ("HelpText", "Not Supported"),
        ("IsPassword", "Not Supported"),
        ("NativeWindowHandle", "HWND(0x1)"),
    ]);
    let patterns: Vec<(&str, &str)> = groups[2].rows.iter().map(|r| (r.name.as_str(), r.value.as_str())).collect();
    assert_eq!(patterns, vec![
        ("Invoke", "Yes"),
        ("Value", "No"),
        ("SelectionItem", "Not Supported"),
        ("LegacyIAccessible", "Yes"),
        ("Toggle", "No"),
        ("Text", "No"),
    ]);
    assert_eq!(groups[3].rows[0].value, "可调用");
    assert_eq!(groups[3].rows[0].action, Some("invoke".to_string()));
    let mut plain = props("x", 0);
    plain.supports_invoke = false;
    assert_eq!(build_details(&plain).len(), 3);
}

#[test]
fn element_details_and_shortcut_node() {
    let (node, groups, supports) = element_details("root/1/2", &props("Open", 0));
    assert_eq!(node.id, "root/1/2");
    assert_eq!(node.parent_id, Some("root/1".to_string()));
    assert_eq!(node.depth, 2);
    assert_eq!(groups.len(), 4);
    assert!(supports);
    let (n2, s2) = shortcut_node("root", &props("Open", 0));
    assert_eq!((n2.parent_id, n2.depth, s2), (None, 0, true));
    let store = ShortcutStore::default();
    let d = get_element_details(&store, &window(5, "w"), "root/1", &props("Open", 0));
    assert!(!d.shortcut_enabled);
    assert!(d.supports_invoke);
}

#[test]
fn bounds_query() {
    assert_eq!(element_bounds(Ok(ScreenRect { left: 0, top: 0, right: 0, bottom: 0 })), Ok(RectDto { x: 0, y: 0, width: 1, height: 1 }));
    assert_eq!(element_bounds(Err("gone".to_string())), Err("gone".to_string()));
}

#[test]
fn resolver_walks_the_path() {
    let mut r = NodeResolver::new("root/2/0");
    assert_eq!(r.next_index(), Ok(Some(2)));
    assert_eq!(r.descend(3), Ok(2));
    assert_eq!(r.next_index(), Ok(Some(0)));
    assert_eq!(r.descend(0), Err("节点路径已失效".to_string()));
    assert_eq!(r.descend(1), Ok(0));
    assert_eq!(r.next_index(), Ok(None));
    let bad = NodeResolver::new("root/x");
    assert_eq!(bad.next_index(), Err("无效节点路径".to_string()));
    assert_eq!(NodeResolver::new("root").next_index(), Ok(None));
}

#[test]
fn invoking_walks_to_the_stored_node() {
    let node = load_children("root/1", &vec![props("a", 0)]).pop().unwrap();
    let item = ShortcutItem {
        id: "5:root/1/0".to_string(),
        process: window(5, "w"),
        node: node.clone(),
        ancestors: vec![node],
        hotkey: String::new(),
        enabled: false,
        supports_invoke: true,
        status: String::new(),
    };
    let (targets, run) = invoke_shortcut_item(&item);
    assert_eq!(targets.len(), 2);
    match &targets[0] {
        InvokeTarget::Path(id) => assert_eq!(id, "root/1/0"),
        InvokeTarget::Search { .. } => panic!("the node path comes first"),
    }
    assert!(matches!(targets[1], InvokeTarget::Search { .. }));
    assert_eq!(run.phase(), InvokePhase::Find { target: 0 });
    assert_eq!(run.last_error(), "");
}

#[test]
fn window_root_selection() {
    let w = window(500, "w");
    assert!(handle_element_matches(&w, Some(1), 2));
    assert!(!handle_element_matches(&w, Some(1), 0));
    assert!(!handle_element_matches(&w, None, 3));
    assert_eq!(match_child_window(&w, &vec![None, Some(3), Some(500), Some(500)]), Ok(2));
    assert_eq!(match_child_window(&w, &vec![Some(3)]), Err("未找到 HWND 500 对应的窗口元素".to_string()));
}

#[test]
fn ancestor_walk_limits() {
    assert_eq!(ancestor_walk_step(1000, true), Ok(()));
    assert_eq!(ancestor_walk_step(1001, true), Err("元素嵌套过深".to_string()));
    assert_eq!(ancestor_walk_step(3, false), Err("无法回溯元素路径".to_string()));
    assert_eq!(child_position(&vec![false, true, true]), Ok(1));
    assert_eq!(child_position(&vec![false]), Err("无法确定子元素位置索引".to_string()));
}

#[test]
fn path_from_root_to_picked_element() {
    let nodes = vec![props("root", 1), props("pane", 1), props("button", 0)];
    let path = build_path_from_ancestors(&nodes, &vec![3, 0]);
    let ids: Vec<&str> = path.iter().map(|n| n.id.as_str()).collect();
    assert_eq!(ids, vec!["root", "root/3", "root/3/0"]);
    assert_eq!(path[2].parent_id, Some("root/3".to_string()));
    assert_eq!(path[2].depth, 2);
    let payload = picked_payload(window(1, "w"), path).unwrap();
    assert_eq!(payload.node.id, "root/3/0");
    assert_eq!(payload.path.len(), 3);
    assert_eq!(picked_payload(window(1, "w"), vec![]).unwrap_err(), "未找到元素路径");
    let (anc, supports) = shortcut_node_with_ancestors(&nodes, &vec![3, 0]);
    assert_eq!(anc.len(), 3);
    assert!(supports);
}

#[test]
fn debug_listing_shows_at_most_thirty() {
    let kids: Vec<DesktopChild> = (0..35)
        .map(|i| DesktopChild { process_id: i, control_type: "Window".to_string(), name: format!("w{i}") })
        .collect();
    let text = debug_uia_tree(35, &kids);
    let lines: Vec<&str> = text.split('\n').collect();
    assert_eq!(lines.len(), 31);
    assert_eq!(lines[0], "桌面直接子元素: 35 个");
    assert_eq!(lines[1], "  PID=0 Type=Window Name=\"w0\"");
    assert_eq!(debug_uia_tree(0, &vec![]), "桌面直接子元素: 0 个");
}

#[test]
fn process_names_from_windows_paths() {
    assert_eq!(process_name_from_path("C:\\Windows\\notepad.exe"), "notepad.exe");
    assert_eq!(process_name_from_path("C:\\Program Files\\App\\"), "App");
    assert_eq!(process_name_from_path("C:\\a\\b\\."), "b");
    assert_eq!(process_name_from_path("C:\\a\\.."), "");
    assert_eq!(process_name_from_path("C:"), "");
    assert_eq!(process_name_from_path("C:app.exe"), "app.exe");
    assert_eq!(process_name_from_path(""), "");
    assert_eq!(process_name_from_path("/usr/bin/code"), "code");
}

#[test]
fn process_names_follow_windows_path_prefixes() {
    assert_eq!(process_name_from_path("\\\\server\\share"), "");
    assert_eq!(process_name_from_path("\\\\server\\share\\app.exe"), "app.exe");
    assert_eq!(process_name_from_path("//server/share/tool.exe"), "tool.exe");
    assert_eq!(process_name_from_path("\\\\server"), "server");
    assert_eq!(process_name_from_path("\\\\?\\C:\\a/b.exe"), "a/b.exe");
    assert_eq!(process_name_from_path("\\\\?\\C:\\dir\\."), "");
    assert_eq!(process_name_from_path("\\\\?\\UNC\\server\\share"), "");
    assert_eq!(process_name_from_path("\\\\?\\UNC\\server\\share\\x.exe"), "x.exe");
    assert_eq!(process_name_from_path("\\\\?\\Volume{1}"), "");
    assert_eq!(process_name_from_path("\\\\.\\COM1"), "");
    assert_eq!(process_name_from_path("\\\\.\\pipe\\name"), "name");
}

#[test]
fn window_listing_rules() {
    assert!(top_level_candidate(true, false, 5, 10, 11));
    assert!(!top_level_candidate(true, true, 5, 10, 11));
    assert!(!top_level_candidate(true, false, 0, 10, 11));
    assert!(!top_level_candidate(true, false, 5, 0, 11));
    assert!(!top_level_candidate(true, false, 5, 11, 11));
    assert!(!top_level_candidate(false, false, 5, 10, 11));
    assert!(listed_window(window(1, "  ")).is_none());
    assert!(listed_window(window(1, "Editor")).is_some());
    assert!(cursor_root_accepted(false, false, true, 3, 4));
    assert!(!cursor_root_accepted(true, false, true, 3, 4));
    assert!(!cursor_root_accepted(false, false, false, 3, 4));
    assert!(!cursor_root_accepted(false, false, true, 4, 4));
}

#[test]
fn process_window_assembly() {
    let w = process_from_hwnd(9, "T".to_string(), 77, "C".to_string(), Some(ScreenRect { left: 0, top: 0, right: 99, bottom: 9 }), Some("D:\\x\\y.exe".to_string()));
    assert_eq!(w.process_name, "y.exe");
    assert_eq!(w.exe_path, "D:\\x\\y.exe");
    assert_eq!(w.bounds, Some(RectDto { x: 0, y: 0, width: 100, height: 10 }));
    let none = process_from_hwnd(9, "T".to_string(), 77, "C".to_string(), None, None);
    assert_eq!(none.exe_path, "");
    assert_eq!(none.process_name, "");
}

#[test]
fn windows_are_deduplicated_and_sorted_by_lowercase_title() {
    let ws = vec![window(1, "beta"), window(2, "Alpha"), window(1, "zzz"), window(3, "alpha"), window(4, "Émile"), window(5, "ALPHA")];
    let sorted = dedup_and_sort_windows(ws);
    let got: Vec<(isize, &str)> = sorted.iter().map(|w| (w.hwnd, w.title.as_str())).collect();
    assert_eq!(got, vec![(2, "Alpha"), (3, "alpha"), (5, "ALPHA"), (1, "beta"), (4, "Émile")]);
}

#[test]
fn overlay_frame() {
    let r = RectDto { x: 10, y: 20, width: 100, height: 50 };
    match overlay_plan(&r, 0) {
        OverlayPlan::Create(p) => assert_eq!(p, vec![
            FramePiece { x: 10, y: 20, width: 100, height: 3 },
            FramePiece { x: 10, y: 67, width: 100, height: 3 },
            FramePiece { x: 10, y: 20, width: 3, height: 50 },
            FramePiece { x: 107, y: 20, width: 3, height: 50 },
        ]),
        other => panic!("unexpected {other:?}"),
    }
    assert!(matches!(overlay_plan(&r, 4), OverlayPlan::Move(_)));
    assert!(matches!(overlay_plan(&RectDto { x: 0, y: 0, width: 0, height: 5 }, 4), OverlayPlan::Hide));
}
