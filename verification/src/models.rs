//! The values that the inspector hands to its front end and stores.

use vstd::prelude::*;

verus! {

/// A screen rectangle: position and (non-negative) size.
#[derive(Debug, Clone, Copy, PartialEq, Eq, Structural)]
pub struct RectDto {
    pub x: i32,
    pub y: i32,
    pub width: i32,
    pub height: i32,
}

/// A rectangle as the automation interface reports it: its four edges,
/// inclusive.
#[derive(Debug, Clone, Copy, PartialEq, Eq, Structural)]
pub struct ScreenRect {
    pub left: i32,
    pub top: i32,
    pub right: i32,
    pub bottom: i32,
}

/// A visible top-level window and the process that owns it.
#[derive(Debug)]
pub struct ProcessWindow {
    pub process_id: u32,
    pub title: String,
    pub hwnd: isize,
    pub class_name: String,
    pub exe_path: String,
    pub process_name: String,
    pub bounds: Option<RectDto>,
}

/// One element of a window's element tree.
#[derive(Debug)]
pub struct UiNode {
    pub id: String,
    pub parent_id: Option<String>,
    pub name: String,
    pub automation_id: String,
    pub control_type: String,
    pub class_name: String,
    pub framework_id: String,
    pub process_id: u32,
    pub bounds: Option<RectDto>,
    pub depth: usize,
    pub has_children: bool,
}

/// One named property in the details pane.
#[derive(Debug)]
pub struct DetailRow {
    pub name: String,
    pub value: String,
    pub action: Option<String>,
}

/// A titled group of detail rows.
#[derive(Debug)]
pub struct DetailGroup {
    pub title: String,
    pub rows: Vec<DetailRow>,
}

/// Everything the details pane shows of one element.
#[derive(Debug)]
pub struct ElementDetails {
    pub node: UiNode,
    pub groups: Vec<DetailGroup>,
    pub supports_invoke: bool,
    pub shortcut_enabled: bool,
}

/// The element picked with the mouse, with its path from the window root.
#[derive(Debug)]
pub struct PickedElementPayload {
    pub process: ProcessWindow,
    pub node: UiNode,
    pub path: Vec<UiNode>,
}

/// An element bound as a shortcut, possibly with a hotkey.
#[derive(Debug)]
pub struct ShortcutItem {
    pub id: String,
    pub process: ProcessWindow,
    pub node: UiNode,
    pub ancestors: Vec<UiNode>,
    pub hotkey: String,
    pub enabled: bool,
    pub supports_invoke: bool,
    pub status: String,
}

/// All shortcuts, in the order in which they were added.
#[derive(Debug)]
pub struct ShortcutStore {
    pub items: Vec<ShortcutItem>,
}

/// The properties of an element that the inspector reads. A property whose
/// query failed is `None`; texts are as the automation interface renders
/// them.
#[derive(Debug)]
pub struct ElementProps {
    pub name: Option<String>,
    pub automation_id: Option<String>,
    pub control_type: Option<String>,
    pub localized_control_type: Option<String>,
    pub class_name: Option<String>,
    pub framework_id: Option<String>,
    pub help_text: Option<String>,
    pub native_window_handle: Option<String>,
    pub process_id: Option<u32>,
    pub is_enabled: Option<bool>,
    pub is_offscreen: Option<bool>,
    pub is_password: Option<bool>,
    pub bounds: Option<ScreenRect>,
    pub supports_invoke: bool,
    pub value_pattern: Option<bool>,
    pub selection_item_pattern: Option<bool>,
    pub legacy_accessible_pattern: Option<bool>,
    pub toggle_pattern: Option<bool>,
    pub text_pattern: Option<bool>,
    pub child_count: usize,
}

/// A copy of an optional text.
pub fn clone_opt_string(s: &Option<String>) -> (res: Option<String>)
    ensures
        res == *s,
{
    match s {
        Some(t) => Some(t.clone()),
        None => None,
    }
}

impl Clone for ProcessWindow {
    fn clone(&self) -> (res: Self)
        ensures
            res == *self,
    {
        ProcessWindow {
            process_id: self.process_id,
            title: self.title.clone(),
            hwnd: self.hwnd,
            class_name: self.class_name.clone(),
            exe_path: self.exe_path.clone(),
            process_name: self.process_name.clone(),
            bounds: self.bounds,
        }
    }
}

impl Clone for UiNode {
    fn clone(&self) -> (res: Self)
        ensures
            res == *self,
    {
        UiNode {
            id: self.id.clone(),
            parent_id: clone_opt_string(&self.parent_id),
            name: self.name.clone(),
            automation_id: self.automation_id.clone(),
            control_type: self.control_type.clone(),
            class_name: self.class_name.clone(),
            framework_id: self.framework_id.clone(),
            process_id: self.process_id,
            bounds: self.bounds,
            depth: self.depth,
            has_children: self.has_children,
        }
    }
}

/// A copy of a list of nodes.
pub fn clone_nodes(v: &Vec<UiNode>) -> (res: Vec<UiNode>)
    ensures
        res@ == v@,
{
    let mut res: Vec<UiNode> = Vec::new();
    let mut i: usize = 0;
    while i < v.len()
        invariant
            i <= v.len(),
            res@ == v@.subrange(0, i as int),
        decreases v.len() - i,
    {
        res.push(v[i].clone());
        assert(res@ =~= v@.subrange(0, i + 1));
        i = i + 1;
    }
    assert(v@.subrange(0, v.len() as int) =~= v@);
    res
}

/// `a` and `b` hold the same shortcut.
pub open spec fn same_item(a: ShortcutItem, b: ShortcutItem) -> bool {
    &&& a.id == b.id
    &&& a.process == b.process
    &&& a.node == b.node
    &&& a.ancestors@ == b.ancestors@
    &&& a.hotkey == b.hotkey
    &&& a.enabled == b.enabled
    &&& a.supports_invoke == b.supports_invoke
    &&& a.status == b.status
}

/// `a` and `b` hold the same shortcuts, in the same order.
pub open spec fn same_items(a: Seq<ShortcutItem>, b: Seq<ShortcutItem>) -> bool {
    &&& a.len() == b.len()
    &&& forall|k: int| 0 <= k < a.len() ==> same_item(#[trigger] a[k], b[k])
}

impl Clone for ShortcutItem {
    fn clone(&self) -> (res: Self)
        ensures
            same_item(res, *self),
    {
        ShortcutItem {
            id: self.id.clone(),
            process: self.process.clone(),
            node: self.node.clone(),
            ancestors: clone_nodes(&self.ancestors),
            hotkey: self.hotkey.clone(),
            enabled: self.enabled,
            supports_invoke: self.supports_invoke,
            status: self.status.clone(),
        }
    }
}

/// A copy of a list of shortcuts.
pub fn clone_items(v: &Vec<ShortcutItem>) -> (res: Vec<ShortcutItem>)
    ensures
        same_items(res@, v@),
{
    let mut res: Vec<ShortcutItem> = Vec::new();
    let mut i: usize = 0;
    while i < v.len()
        invariant
            i <= v.len(),
            res.len() == i,
            forall|k: int| 0 <= k < i ==> same_item(#[trigger] res@[k], v@[k]),
        decreases v.len() - i,
    {
        res.push(v[i].clone());
        i = i + 1;
    }
    res
}

impl Default for ShortcutStore {
    fn default() -> (res: Self)
        ensures
            res.items@ == Seq::<ShortcutItem>::empty(),
    {
        ShortcutStore { items: Vec::new() }
    }
}

} // verus!
