use penswitcher::activation::{
    activation_modes, invoke_targets, search_matches, ActivationMode, InvokePhase, InvokeRun, InvokeTarget,
};
use penswitcher::models::{ProcessWindow, ShortcutItem, UiNode};

fn node(id: &str, name: &str, automation_id: &str) -> UiNode {
    UiNode {
        id: id.to_string(),
        parent_id: None,
        name: name.to_string(),
        automation_id: automation_id.to_string(),
        control_type: "Button".to_string(),
        class_name: "Button".to_string(),
        framework_id: "Win32".to_string(),
        process_id: 7,
        bounds: None,
        depth: 0,
        has_children: false,
    }
}

fn item(target: UiNode, ancestors: Vec<UiNode>) -> ShortcutItem {
    ShortcutItem {
        id: format!("9:{}", target.id),
        process: ProcessWindow {
            process_id: 7,
            title: "Editor".to_string(),
            hwnd: 9,
            class_name: "Editor".to_string(),
            exe_path: String::new(),
            process_name: String::new(),
            bounds: None,
        },
        node: target,
        ancestors,
        hotkey: String::new(),
        enabled: false,
        supports_invoke: true,
        status: "未绑定".to_string(),
    }
}

fn path_of(t: &InvokeTarget) -> Option<&str> {
    match t {
        InvokeTarget::Path(p) => Some(p.as_str()),
        InvokeTarget::Search { .. } => None,
    }
}

#[test]
fn activation_modes_come_in_documented_order() {
    assert_eq!(
        activation_modes(),
        vec![
            ActivationMode::Select,
            ActivationMode::Invoke,
            ActivationMode::Toggle,
            ActivationMode::Expand,
            ActivationMode::LegacyIAccessible,
            ActivationMode::Click,
        ]
    );
}

#[test]
fn targets_try_path_then_search_then_ancestors_nearest_first() {
    let target = node("root/1/0/3", "Save", "saveBtn");
    let ancestors = vec![
        node("root", "Editor", "Not Supported"),
        node("root/1", "Toolbar", "tb"),
        node("root/1/0", "Group", "grp"),
        node("root/1/0/3", "Save", "saveBtn"),
    ];
    let targets = invoke_targets(&item(target, ancestors));
    assert_eq!(targets.len(), 5);
    assert_eq!(path_of(&targets[0]), Some("root/1/0/3"));
    match &targets[1] {
        InvokeTarget::Search { name, automation_id } => {
            assert_eq!(name, "Save");
            assert_eq!(automation_id, "saveBtn");
        }
        InvokeTarget::Path(_) => panic!("the second target is the search"),
    }
    assert_eq!(path_of(&targets[2]), Some("root/1/0"));
    assert_eq!(path_of(&targets[3]), Some("root/1"));
    assert_eq!(path_of(&targets[4]), Some("root"));
}

#[test]
fn node_without_name_or_id_is_not_searched() {
    let target = node("root/2", "Not Supported", "Not Supported");
    let ancestors = vec![node("root", "Editor", "ed"), node("root/2", "Not Supported", "Not Supported")];
    let targets = invoke_targets(&item(target, ancestors));
    assert_eq!(targets.len(), 2);
    assert_eq!(path_of(&targets[0]), Some("root/2"));
    assert_eq!(path_of(&targets[1]), Some("root"));
}

#[test]
fn item_without_ancestors_has_path_and_search_only() {
    let targets = invoke_targets(&item(node("root/5", "OK", "Not Supported"), Vec::new()));
    assert_eq!(targets.len(), 2);
    assert_eq!(path_of(&targets[0]), Some("root/5"));
    assert!(path_of(&targets[1]).is_none());
}

#[test]
fn search_needs_every_known_property_to_agree() {
    let both = node("root/1", "Save", "saveBtn");
    assert!(search_matches(&both, "Save", "saveBtn"));
    assert!(!search_matches(&both, "Save", "other"));
    assert!(!search_matches(&both, "Other", "saveBtn"));

    let name_only = node("root/1", "Save", "Not Supported");
    assert!(search_matches(&name_only, "Save", "anything"));
    assert!(!search_matches(&name_only, "Open", "anything"));

    let id_only = node("root/1", "Not Supported", "saveBtn");
    assert!(search_matches(&id_only, "whatever", "saveBtn"));
    assert!(!search_matches(&id_only, "whatever", "x"));
}

#[test]
fn node_without_known_properties_matches_nothing() {
    let unknown = node("root/1", "Not Supported", "Not Supported");
    assert!(!search_matches(&unknown, "Not Supported", "Not Supported"));
    assert!(!search_matches(&unknown, "Save", "saveBtn"));
}

#[test]
fn run_tries_modes_in_order_then_next_place() {
    let mut run = InvokeRun::start(2);
    assert_eq!(run.phase(), InvokePhase::Find { target: 0 });
    run.on_found(Ok(()));
    assert_eq!(run.phase(), InvokePhase::Activate { target: 0, mode: 0 });
    let expected = activation_modes();
    for (i, mode) in expected.iter().enumerate() {
        assert_eq!(run.phase(), InvokePhase::Activate { target: 0, mode: i });
        assert_eq!(run.mode(), *mode);
        run.on_activated(Err(format!("mode {i} failed")));
    }
    assert_eq!(run.phase(), InvokePhase::Find { target: 1 });
    assert_eq!(run.last_error(), "mode 5 failed");
    run.on_found(Err("节点路径已失效".to_string()));
    assert_eq!(run.phase(), InvokePhase::Failed);
    assert_eq!(run.last_error(), "节点路径已失效");
}

#[test]
fn run_succeeds_on_first_working_activation() {
    let mut run = InvokeRun::start(3);
    run.on_found(Err("未找到元素".to_string()));
    assert_eq!(run.phase(), InvokePhase::Find { target: 1 });
    run.on_found(Ok(()));
    run.on_activated(Err("no select".to_string()));
    assert_eq!(run.mode(), ActivationMode::Invoke);
    run.on_activated(Ok(()));
    assert_eq!(run.phase(), InvokePhase::Succeeded);
    assert_eq!(run.last_error(), "no select");
}

#[test]
fn run_over_one_place_fails_after_its_lookup_fails() {
    let mut run = InvokeRun::start(1);
    run.on_found(Err("无效节点路径".to_string()));
    assert_eq!(run.phase(), InvokePhase::Failed);
    assert_eq!(run.last_error(), "无效节点路径");
}
