//! The element tree of a window: nodes built from element properties, the
//! details pane, resolution of node ids back to elements, and the path from
//! the window root to a picked element.

use vstd::prelude::*;
use crate::models::{
    DetailGroup, DetailRow, ElementProps, PickedElementPayload, ProcessWindow, RectDto,
    ScreenRect, ShortcutItem, UiNode, clone_opt_string,
};
use crate::node_path::{
    child_id, child_id_spec, count_char, id_depth, id_of_path, lemma_child_id_of_path,
    node_path_steps, node_steps, parent_id, parent_id_spec, root_id, root_seq,
};
use crate::activation::{invoke_targets, targets_of, InvokePhase, InvokeRun, InvokeTarget};
use crate::text::{decimal, i64_to_decimal, push_str, signed_decimal};
use crate::utils::{
    bool_property, bool_property_text, bool_text, dto_of, format_rect, opt_bool_text,
    opt_u32_text, opt_view, prop_string, prop_text, rect_fits, rect_text, rect_to_dto, row,
    yes_no, yes_no_text,
};

verus! {

// ---------------------------------------------------------------------------
// Nodes
// ---------------------------------------------------------------------------

/// The properties can be rendered: the size of the bounding rectangle fits.
pub open spec fn props_wf(p: ElementProps) -> bool {
    p.bounds matches Some(r) ==> rect_fits(r)
}

/// The bounding rectangle of an element, by position and size.
pub open spec fn bounds_of(p: ElementProps) -> Option<RectDto> {
    match p.bounds {
        Some(r) => Some(dto_of(r)),
        None => None,
    }
}

/// `n` is the node with id `id`, parent `parent` and depth `depth` of the
/// element whose properties are `p`.
pub open spec fn node_of(
    n: UiNode,
    p: ElementProps,
    id: Seq<char>,
    parent: Option<Seq<char>>,
    depth: nat,
) -> bool {
    &&& n.id@ == id
    &&& opt_view(n.parent_id) == parent
    &&& n.name@ == prop_text(opt_view(p.name))
    &&& n.automation_id@ == prop_text(opt_view(p.automation_id))
    &&& n.control_type@ == prop_text(opt_view(p.control_type))
    &&& n.class_name@ == prop_text(opt_view(p.class_name))
    &&& n.framework_id@ == prop_text(opt_view(p.framework_id))
    &&& n.process_id == match p.process_id {
        Some(v) => v,
        None => 0,
    }
    &&& n.bounds == bounds_of(p)
    &&& n.depth == depth
    &&& n.has_children == (p.child_count > 0)
}

/// The node for the element with properties `props`.
pub fn node_from_element(
    props: &ElementProps,
    id: String,
    parent_id: Option<String>,
    depth: usize,
) -> (res: UiNode)
    requires
        props_wf(*props),
    ensures
        node_of(res, *props, id@, opt_view(parent_id), depth as nat),
{
    let bounds = match props.bounds {
        Some(r) => Some(rect_to_dto(r)),
        None => None,
    };
    UiNode {
        id,
        parent_id,
        name: prop_string(clone_opt_string(&props.name)),
        automation_id: prop_string(clone_opt_string(&props.automation_id)),
        control_type: prop_string(clone_opt_string(&props.control_type)),
        class_name: prop_string(clone_opt_string(&props.class_name)),
        framework_id: prop_string(clone_opt_string(&props.framework_id)),
        process_id: match props.process_id {
            Some(v) => v,
            None => 0,
        },
        bounds,
        depth,
        has_children: props.child_count > 0,
    }
}

fn opt_parent_id(id: &str) -> (res: Option<String>)
    ensures
        opt_view(res) == parent_id_spec(id@),
{
    parent_id(id)
}

/// The tree of a window starts with its root element alone.
pub fn load_root(root: &ElementProps) -> (res: Vec<UiNode>)
    requires
        props_wf(*root),
    ensures
        res.len() == 1,
        node_of(res@[0], *root, root_seq(), None, 0),
{
    let mut res = Vec::new();
    res.push(node_from_element(root, root_id(), None, 0));
    res
}

/// The nodes of the children of the node `node_id`: the `k`-th child gets the
/// id `node_id/k`, the parent `node_id`, and the depth that its id gives.
pub fn load_children(node_id: &str, children: &Vec<ElementProps>) -> (res: Vec<UiNode>)
    requires
        forall|k: int| 0 <= k < children.len() ==> props_wf(#[trigger] children@[k]),
    ensures
        res.len() == children.len(),
        forall|k: int|
            0 <= k < children.len() ==> node_of(
                #[trigger] res@[k],
                children@[k],
                child_id_spec(node_id@, k as usize),
                Some(node_id@),
                count_char(child_id_spec(node_id@, k as usize), '/'),
            ),
{
    let mut res: Vec<UiNode> = Vec::new();
    let mut i: usize = 0;
    while i < children.len()
        invariant
            i <= children.len(),
            res.len() == i,
            forall|k: int| 0 <= k < children.len() ==> props_wf(#[trigger] children@[k]),
            forall|k: int|
                0 <= k < i ==> node_of(
                    #[trigger] res@[k],
                    children@[k],
                    child_id_spec(node_id@, k as usize),
                    Some(node_id@),
                    count_char(child_id_spec(node_id@, k as usize), '/'),
                ),
        decreases children.len() - i,
    {
        let id = child_id(node_id, i);
        let depth = id_depth(id.as_str());
        let node = node_from_element(&children[i], id, Some(String::from_str(node_id)), depth);
        res.push(node);
        i = i + 1;
    }
    res
}

// ---------------------------------------------------------------------------
// The details pane
// ---------------------------------------------------------------------------

/// `r` shows `value` under `name`, without an action.
pub open spec fn row_is(r: DetailRow, name: Seq<char>, value: Seq<char>) -> bool {
    &&& r.name@ == name
    &&& r.value@ == value
    &&& r.action is None
}

pub open spec fn decimal_opt(v: Option<u32>) -> Option<Seq<char>> {
    match v {
        Some(n) => Some(decimal(n as nat)),
        None => None,
    }
}

pub open spec fn bool_opt(v: Option<bool>) -> Option<Seq<char>> {
    match v {
        Some(b) => Some(bool_text(b)),
        None => None,
    }
}

pub open spec fn rect_opt(v: Option<ScreenRect>) -> Option<Seq<char>> {
    match v {
        Some(r) => Some(rect_text(dto_of(r))),
        None => None,
    }
}

/// The group `Identification` for the properties `p`.
pub open spec fn identification_of(g: DetailGroup, p: ElementProps) -> bool {
    &&& g.title@ == "Identification"@
    &&& g.rows.len() == 8
    &&& row_is(g.rows@[0], "AutomationId"@, prop_text(opt_view(p.automation_id)))
    &&& row_is(g.rows@[1], "Name"@, prop_text(opt_view(p.name)))
    &&& row_is(g.rows@[2], "ClassName"@, prop_text(opt_view(p.class_name)))
    &&& row_is(g.rows@[3], "ControlType"@, prop_text(opt_view(p.control_type)))
    &&& row_is(g.rows@[4], "LocalizedControlType"@, prop_text(opt_view(p.localized_control_type)))
    &&& row_is(g.rows@[5], "FrameworkType"@, prop_text(opt_view(p.framework_id)))
    &&& row_is(g.rows@[6], "FrameworkId"@, prop_text(opt_view(p.framework_id)))
    &&& row_is(g.rows@[7], "ProcessId"@, prop_text(decimal_opt(p.process_id)))
}

/// The group `Details` for the properties `p`.
pub open spec fn state_details_of(g: DetailGroup, p: ElementProps) -> bool {
    &&& g.title@ == "Details"@
    &&& g.rows.len() == 6
    &&& row_is(g.rows@[0], "IsEnabled"@, prop_text(bool_opt(p.is_enabled)))
    &&& row_is(g.rows@[1], "IsOffscreen"@, prop_text(bool_opt(p.is_offscreen)))
    &&& row_is(g.rows@[2], "BoundingRectangle"@, prop_text(rect_opt(p.bounds)))
    &&& row_is(g.rows@[3], "HelpText"@, prop_text(opt_view(p.help_text)))
    &&& row_is(g.rows@[4], "IsPassword"@, prop_text(bool_opt(p.is_password)))
    &&& row_is(g.rows@[5], "NativeWindowHandle"@, prop_text(opt_view(p.native_window_handle)))
}

/// The group `Pattern Support` for the properties `p`.
pub open spec fn patterns_of(g: DetailGroup, p: ElementProps) -> bool {
    &&& g.title@ == "Pattern Support"@
    &&& g.rows.len() == 6
    &&& row_is(g.rows@[0], "Invoke"@, yes_no_text(p.supports_invoke))
    &&& row_is(g.rows@[1], "Value"@, bool_property_text(p.value_pattern))
    &&& row_is(g.rows@[2], "SelectionItem"@, bool_property_text(p.selection_item_pattern))
    &&& row_is(g.rows@[3], "LegacyIAccessible"@, bool_property_text(p.legacy_accessible_pattern))
    &&& row_is(g.rows@[4], "Toggle"@, bool_property_text(p.toggle_pattern))
    &&& row_is(g.rows@[5], "Text"@, bool_property_text(p.text_pattern))
}

/// The group `Invoke`, shown for elements that can be invoked.
pub open spec fn invoke_group(g: DetailGroup) -> bool {
    &&& g.title@ == "Invoke"@
    &&& g.rows.len() == 1
    &&& g.rows@[0].name@ == "Invoke"@
    &&& g.rows@[0].value@ == "可调用"@
    &&& opt_view(g.rows@[0].action) == Some("invoke"@)
}

/// `g` is what the details pane shows for the properties `p`.
pub open spec fn details_of(g: Seq<DetailGroup>, p: ElementProps) -> bool {
    &&& g.len() == if p.supports_invoke {
        4int
    } else {
        3int
    }
    &&& identification_of(g[0], p)
    &&& state_details_of(g[1], p)
    &&& patterns_of(g[2], p)
    &&& p.supports_invoke ==> invoke_group(g[3])
}

fn identification(p: &ElementProps) -> (res: DetailGroup)
    ensures
        identification_of(res, *p),
{
    let mut rows: Vec<DetailRow> = Vec::new();
    rows.push(row("AutomationId", prop_string(clone_opt_string(&p.automation_id))));
    rows.push(row("Name", prop_string(clone_opt_string(&p.name))));
    rows.push(row("ClassName", prop_string(clone_opt_string(&p.class_name))));
    rows.push(row("ControlType", prop_string(clone_opt_string(&p.control_type))));
    rows.push(
        row("LocalizedControlType", prop_string(clone_opt_string(&p.localized_control_type))),
    );
    rows.push(row("FrameworkType", prop_string(clone_opt_string(&p.framework_id))));
    rows.push(row("FrameworkId", prop_string(clone_opt_string(&p.framework_id))));
    rows.push(row("ProcessId", prop_string(opt_u32_text(p.process_id))));
    DetailGroup { title: String::from_str("Identification"), rows }
}

fn state_details(p: &ElementProps) -> (res: DetailGroup)
    requires
        props_wf(*p),
    ensures
        state_details_of(res, *p),
{
    let mut rows: Vec<DetailRow> = Vec::new();
    rows.push(row("IsEnabled", prop_string(opt_bool_text(p.is_enabled))));
    rows.push(row("IsOffscreen", prop_string(opt_bool_text(p.is_offscreen))));
    let rect = match p.bounds {
        Some(r) => Some(format_rect(r)),
        None => None,
    };
    assert(opt_view(rect) == rect_opt(p.bounds));
    rows.push(row("BoundingRectangle", prop_string(rect)));
    rows.push(row("HelpText", prop_string(clone_opt_string(&p.help_text))));
    rows.push(row("IsPassword", prop_string(opt_bool_text(p.is_password))));
    rows.push(row("NativeWindowHandle", prop_string(clone_opt_string(&p.native_window_handle))));
    DetailGroup { title: String::from_str("Details"), rows }
}

fn patterns(p: &ElementProps) -> (res: DetailGroup)
    ensures
        patterns_of(res, *p),
{
    let mut rows: Vec<DetailRow> = Vec::new();
    rows.push(row("Invoke", yes_no(p.supports_invoke)));
    rows.push(row("Value", bool_property(p.value_pattern)));
    rows.push(row("SelectionItem", bool_property(p.selection_item_pattern)));
    rows.push(row("LegacyIAccessible", bool_property(p.legacy_accessible_pattern)));
    rows.push(row("Toggle", bool_property(p.toggle_pattern)));
    rows.push(row("Text", bool_property(p.text_pattern)));
    DetailGroup { title: String::from_str("Pattern Support"), rows }
}

/// The groups of the details pane for the element with properties `p`:
/// identification, state, pattern support, and an `Invoke` action for
/// elements that can be invoked.
pub fn build_details(p: &ElementProps) -> (res: Vec<DetailGroup>)
    requires
        props_wf(*p),
    ensures
        details_of(res@, *p),
{
    let mut groups: Vec<DetailGroup> = Vec::new();
    groups.push(identification(p));
    groups.push(state_details(p));
    groups.push(patterns(p));
    if p.supports_invoke {
        let mut rows: Vec<DetailRow> = Vec::new();
        rows.push(
            DetailRow {
                name: String::from_str("Invoke"),
                value: String::from_str("可调用"),
                action: Some(String::from_str("invoke")),
            },
        );
        groups.push(DetailGroup { title: String::from_str("Invoke"), rows });
    }
    groups
}

/// The node of the element `node_id`, the details pane for it, and whether it
/// can be invoked.
pub fn element_details(node_id: &str, props: &ElementProps) -> (res: (
    UiNode,
    Vec<DetailGroup>,
    bool,
))
    requires
        props_wf(*props),
    ensures
        node_of(
            res.0,
            *props,
            node_id@,
            parent_id_spec(node_id@),
            count_char(node_id@, '/'),
        ),
        details_of(res.1@, *props),
        res.2 == props.supports_invoke,
{
    let node = node_from_element(
        props,
        String::from_str(node_id),
        opt_parent_id(node_id),
        id_depth(node_id),
    );
    let groups = build_details(props);
    (node, groups, props.supports_invoke)
}

/// The node of the element `node_id` and whether it can be invoked.
pub fn shortcut_node(node_id: &str, props: &ElementProps) -> (res: (UiNode, bool))
    requires
        props_wf(*props),
    ensures
        node_of(
            res.0,
            *props,
            node_id@,
            parent_id_spec(node_id@),
            count_char(node_id@, '/'),
        ),
        res.1 == props.supports_invoke,
{
    let node = node_from_element(
        props,
        String::from_str(node_id),
        opt_parent_id(node_id),
        id_depth(node_id),
    );
    (node, props.supports_invoke)
}

/// The bounds of an element by position and size, or the error of the query.
pub fn element_bounds(rect: Result<ScreenRect, String>) -> (res: Result<RectDto, String>)
    requires
        rect matches Ok(r) ==> rect_fits(r),
    ensures
        match rect {
            Ok(r) => res == Ok::<RectDto, String>(dto_of(r)),
            Err(e) => res == Err::<RectDto, String>(e),
        },
{
    match rect {
        Ok(r) => Ok(rect_to_dto(r)),
        Err(e) => Err(e),
    }
}

/// The details pane of the element `node_id` of `process`, with whether it
/// is a shortcut of `store`.
pub fn get_element_details(
    store: &crate::models::ShortcutStore,
    process: &ProcessWindow,
    node_id: &str,
    props: &ElementProps,
) -> (res: crate::models::ElementDetails)
    requires
        props_wf(*props),
    ensures
        node_of(
            res.node,
            *props,
            node_id@,
            parent_id_spec(node_id@),
            count_char(node_id@, '/'),
        ),
        details_of(res.groups@, *props),
        res.supports_invoke == props.supports_invoke,
        res.shortcut_enabled == crate::store::has_id(
            store.items@,
            crate::node_path::shortcut_id_spec(process.hwnd, node_id@),
        ),
{
    let shortcut_enabled = store.shortcut_enabled(process, node_id);
    let (node, groups, supports_invoke) = element_details(node_id, props);
    crate::models::ElementDetails { node, groups, supports_invoke, shortcut_enabled }
}

// ---------------------------------------------------------------------------
// Resolving node ids
// ---------------------------------------------------------------------------

/// The step that resolution takes next, after `pos` steps of `steps`:
/// `Ok(None)` when the element is reached, `Ok(Some(i))` to descend to the
/// `i`-th child, or the message for a path piece that is not a number.
pub open spec fn next_step_spec(steps: Seq<Option<usize>>, pos: nat) -> Result<Option<usize>, Seq<char>> {
    if pos >= steps.len() {
        Ok(None)
    } else {
        match steps[pos as int] {
            Some(i) => Ok(Some(i)),
            None => Err("无效节点路径"@),
        }
    }
}

/// Walks from the root of a window to the element that a node id names, one
/// child at a time.
pub struct NodeResolver {
    steps: Vec<Option<usize>>,
    pos: usize,
}

impl NodeResolver {
    /// The steps of the walk.
    pub closed spec fn steps(&self) -> Seq<Option<usize>> {
        self.steps@
    }

    /// How many steps have been taken.
    pub closed spec fn position(&self) -> nat {
        self.pos as nat
    }

    #[verifier::type_invariant]
    spec fn inv(&self) -> bool {
        self.pos <= self.steps.len()
    }

    /// A walk to the element `node_id`, at the root.
    pub fn new(node_id: &str) -> (res: Self)
        ensures
            res.steps() == node_steps(node_id@),
            res.position() == 0,
    {
        NodeResolver { steps: node_path_steps(node_id), pos: 0 }
    }

    /// What the walk does next.
    pub fn next_index(&self) -> (res: Result<Option<usize>, String>)
        ensures
            match res {
                Ok(o) => next_step_spec(self.steps(), self.position()) == Ok::<Option<usize>, Seq<char>>(o),
                Err(e) => next_step_spec(self.steps(), self.position()) == Err::<Option<usize>, Seq<char>>(e@),
            },
    {
        proof {
            use_type_invariant(self);
        }
        if self.pos >= self.steps.len() {
            Ok(None)
        } else {
            match self.steps[self.pos] {
                Some(i) => Ok(Some(i)),
                None => Err(String::from_str("无效节点路径")),
            }
        }
    }

    /// Descends to the wanted child of the current element, which has
    /// `child_count` children; fails where the child no longer exists.
    pub fn descend(&mut self, child_count: usize) -> (res: Result<usize, String>)
        requires
            next_step_spec(old(self).steps(), old(self).position()) matches Ok(Some(_)),
        ensures
            final(self).steps() == old(self).steps(),
            ({
                let wanted = next_step_spec(old(self).steps(), old(self).position())->Ok_0->Some_0;
                if wanted < child_count {
                    &&& res == Ok::<usize, String>(wanted)
                    &&& final(self).position() == old(self).position() + 1
                } else {
                    &&& res matches Err(e) && e@ == "节点路径已失效"@
                    &&& final(self).position() == old(self).position()
                }
            }),
    {
        proof {
            use_type_invariant(&*self);
        }
        let wanted = match self.steps[self.pos] {
            Some(i) => i,
            None => 0,
        };
        if wanted < child_count {
            self.pos = self.pos + 1;
            Ok(wanted)
        } else {
            Err(String::from_str("节点路径已失效"))
        }
    }
}

/// Starts invoking the shortcut `item`: the places where its element may be,
/// in the order in which they are tried, and a run at the first of them.
pub fn invoke_shortcut_item(item: &ShortcutItem) -> (res: (Vec<InvokeTarget>, InvokeRun))
    ensures
        targets_of(res.0@, *item),
        res.1@.phase == (InvokePhase::Find { target: 0 }),
        res.1@.target_count == res.0.len(),
        res.1@.last_error == Seq::<char>::empty(),
{
    let targets = invoke_targets(item);
    let run = InvokeRun::start(targets.len());
    (targets, run)
}

// ---------------------------------------------------------------------------
// Finding the root element of a window
// ---------------------------------------------------------------------------

/// Whether the element of the window handle can serve as the root: it
/// belongs to the window's process (a failed query counts as process 0) and
/// has children.
pub fn handle_element_matches(process: &ProcessWindow, element_pid: Option<u32>, child_count: usize) -> (res: bool)
    ensures
        res == ((match element_pid {
            Some(p) => p,
            None => 0,
        }) == process.process_id && child_count > 0),
{
    let pid = match element_pid {
        Some(p) => p,
        None => 0,
    };
    pid == process.process_id && child_count > 0
}

/// Among the top-level elements of the window's process, whose native
/// window handles are `child_hwnds` (`None` where the query failed), the
/// first that is the window itself; or the message that there is none.
pub fn match_child_window(process: &ProcessWindow, child_hwnds: &Vec<Option<isize>>) -> (res: Result<usize, String>)
    ensures
        match res {
            Ok(k) => {
                &&& k < child_hwnds.len()
                &&& child_hwnds@[k as int] == Some(process.hwnd)
                &&& forall|j: int| 0 <= j < k ==> #[trigger] child_hwnds@[j] != Some(process.hwnd)
            },
            Err(e) => {
                &&& forall|j: int| 0 <= j < child_hwnds.len() ==> #[trigger] child_hwnds@[j] != Some(process.hwnd)
                &&& e@ == "未找到 HWND "@ + signed_decimal(process.hwnd as int) + " 对应的窗口元素"@
            },
        },
{
    let mut i: usize = 0;
    while i < child_hwnds.len()
        invariant
            i <= child_hwnds.len(),
            forall|j: int| 0 <= j < i ==> #[trigger] child_hwnds@[j] != Some(process.hwnd),
        decreases child_hwnds.len() - i,
    {
        match child_hwnds[i] {
            Some(h) => {
                if h == process.hwnd {
                    return Ok(i);
                }
            },
            None => {},
        }
        i = i + 1;
    }
    let mut msg = String::from_str("未找到 HWND ");
    push_str(&mut msg, i64_to_decimal(process.hwnd as i64).as_str());
    push_str(&mut msg, " 对应的窗口元素");
    Err(msg)
}

// ---------------------------------------------------------------------------
// The path from the window root to an element
// ---------------------------------------------------------------------------

/// One step up the walk from an element towards the window root, after
/// `collected` elements were collected: fails where the parent could not be
/// read, or where more than 1000 elements were collected.
pub fn ancestor_walk_step(collected: usize, parent_found: bool) -> (res: Result<(), String>)
    ensures
        !parent_found ==> (res matches Err(e) && e@ == "无法回溯元素路径"@),
        parent_found && collected > 1000 ==> (res matches Err(e) && e@ == "元素嵌套过深"@),
        parent_found && collected <= 1000 ==> res is Ok,
{
    if !parent_found {
        Err(String::from_str("无法回溯元素路径"))
    } else if collected > 1000 {
        Err(String::from_str("元素嵌套过深"))
    } else {
        Ok(())
    }
}

/// The position of a child among its siblings: the first sibling that is the
/// same element as it (`matches`), or the message that there is none.
pub fn child_position(matches: &Vec<bool>) -> (res: Result<usize, String>)
    ensures
        match res {
            Ok(k) => k < matches.len() && matches@[k as int] && forall|j: int| 0 <= j < k ==> !#[trigger] matches@[j],
            Err(e) => (forall|j: int| 0 <= j < matches.len() ==> !#[trigger] matches@[j]) && e@ == "无法确定子元素位置索引"@,
        },
{
    let mut i: usize = 0;
    while i < matches.len()
        invariant
            i <= matches.len(),
            forall|j: int| 0 <= j < i ==> !#[trigger] matches@[j],
        decreases matches.len() - i,
    {
        if matches[i] {
            return Ok(i);
        }
        i = i + 1;
    }
    Err(String::from_str("无法确定子元素位置索引"))
}

/// The nodes of a path from the window root: `nodes[0]` is the root, and
/// `nodes[k + 1]` is the `positions[k]`-th child of `nodes[k]`. The `k`-th
/// node gets the id of the first `k` positions, its predecessor as parent,
/// and depth `k`.
pub fn build_path_from_ancestors(nodes: &Vec<ElementProps>, positions: &Vec<usize>) -> (res: Vec<UiNode>)
    requires
        nodes.len() == positions.len() + 1,
        forall|k: int| 0 <= k < nodes.len() ==> props_wf(#[trigger] nodes@[k]),
    ensures
        res.len() == nodes.len(),
        forall|k: int|
            0 <= k < nodes.len() ==> node_of(
                #[trigger] res@[k],
                nodes@[k],
                id_of_path(positions@.take(k)),
                if k == 0 {
                    None
                } else {
                    Some(id_of_path(positions@.take(k - 1)))
                },
                k as nat,
            ),
{
    let mut res: Vec<UiNode> = Vec::new();
    let root = root_id();
    assert(positions@.take(0) =~= Seq::<usize>::empty());
    res.push(node_from_element(&nodes[0], root, None, 0));
    let mut k: usize = 1;
    while k < nodes.len()
        invariant
            nodes.len() == positions.len() + 1,
            1 <= k <= nodes.len(),
            res.len() == k,
            forall|q: int| 0 <= q < nodes.len() ==> props_wf(#[trigger] nodes@[q]),
            forall|q: int|
                0 <= q < k ==> node_of(
                    #[trigger] res@[q],
                    nodes@[q],
                    id_of_path(positions@.take(q)),
                    if q == 0 {
                        None
                    } else {
                        Some(id_of_path(positions@.take(q - 1)))
                    },
                    q as nat,
                ),
        decreases nodes.len() - k,
    {
        let parent = res[k - 1].id.clone();
        let id = child_id(parent.as_str(), positions[k - 1]);
        proof {
            lemma_child_id_of_path(positions@.take(k - 1), positions@[k - 1]);
            assert(positions@.take(k - 1).push(positions@[k - 1]) =~= positions@.take(k as int));
        }
        let node = node_from_element(&nodes[k], id, Some(parent), k);
        res.push(node);
        k = k + 1;
    }
    res
}

/// The nodes from the window root down to an element reached by descending
/// through the child positions `positions` (see `build_path_from_ancestors`),
/// and whether that element can be invoked.
pub fn shortcut_node_with_ancestors(nodes: &Vec<ElementProps>, positions: &Vec<usize>) -> (res: (
    Vec<UiNode>,
    bool,
))
    requires
        nodes.len() == positions.len() + 1,
        forall|k: int| 0 <= k < nodes.len() ==> props_wf(#[trigger] nodes@[k]),
    ensures
        res.0.len() == nodes.len(),
        forall|k: int|
            0 <= k < nodes.len() ==> node_of(
                #[trigger] res.0@[k],
                nodes@[k],
                id_of_path(positions@.take(k)),
                if k == 0 {
                    None
                } else {
                    Some(id_of_path(positions@.take(k - 1)))
                },
                k as nat,
            ),
        res.1 == nodes@.last().supports_invoke,
{
    let path = build_path_from_ancestors(nodes, positions);
    let supports = nodes[nodes.len() - 1].supports_invoke;
    (path, supports)
}

/// The element picked in `process`, given the nodes of its path from the
/// window root; fails on an empty path.
pub fn picked_payload(process: ProcessWindow, path: Vec<UiNode>) -> (res: Result<
    PickedElementPayload,
    String,
>)
    ensures
        match res {
            Ok(p) => {
                &&& path.len() > 0
                &&& p.process == process
                &&& p.node == path@.last()
                &&& p.path@ == path@
            },
            Err(e) => path.len() == 0 && e@ == "未找到元素路径"@,
        },
{
    if path.len() == 0 {
        return Err(String::from_str("未找到元素路径"));
    }
    let node = path[path.len() - 1].clone();
    Ok(PickedElementPayload { process, node, path })
}

// ---------------------------------------------------------------------------
// The debug listing of the desktop
// ---------------------------------------------------------------------------

/// A top-level element of the desktop in the debug listing: its process id,
/// its control type and its name.
pub struct DesktopChild {
    pub process_id: u32,
    pub control_type: String,
    pub name: String,
}

/// The line of the debug listing for one element.
pub open spec fn debug_line(c: DesktopChild) -> Seq<char> {
    "  PID="@ + decimal(c.process_id as nat) + " Type="@ + c.control_type@ + " Name=\""@ + c.name@
        + "\""@
}

/// The debug listing: a count of the desktop's children, then one line for
/// each of `shown`, joined by line breaks.
pub open spec fn debug_listing(total: usize, shown: Seq<DesktopChild>) -> Seq<char>
    decreases shown.len(),
{
    if shown.len() == 0 {
        "桌面直接子元素: "@ + decimal(total as nat) + " 个"@
    } else {
        debug_listing(total, shown.drop_last()) + "\n"@ + debug_line(shown.last())
    }
}

/// The number of elements the debug listing shows at most.
pub const DEBUG_LIST_LIMIT: usize = 30;

/// The debug listing of the desktop, which has `total` children, the first
/// of which are `children`: at most the first 30 are listed.
pub fn debug_uia_tree(total: usize, children: &Vec<DesktopChild>) -> (res: String)
    ensures
        res@ == debug_listing(
            total,
            children@.take(
                if children.len() < DEBUG_LIST_LIMIT {
                    children.len() as int
                } else {
                    DEBUG_LIST_LIMIT as int
                },
            ),
        ),
{
    let shown: usize = if children.len() < DEBUG_LIST_LIMIT {
        children.len()
    } else {
        DEBUG_LIST_LIMIT
    };
    let mut s = String::from_str("桌面直接子元素: ");
    push_str(&mut s, crate::text::usize_to_decimal(total).as_str());
    push_str(&mut s, " 个");
    let mut i: usize = 0;
    assert(children@.take(0) =~= Seq::<DesktopChild>::empty());
    while i < shown
        invariant
            shown <= children.len(),
            i <= shown,
            s@ == debug_listing(total, children@.take(i as int)),
        decreases shown - i,
    {
        let c = &children[i];
        push_str(&mut s, "\n");
        push_str(&mut s, "  PID=");
        push_str(&mut s, crate::text::u128_to_decimal(c.process_id as u128).as_str());
        push_str(&mut s, " Type=");
        push_str(&mut s, c.control_type.as_str());
        push_str(&mut s, " Name=\"");
        push_str(&mut s, c.name.as_str());
        push_str(&mut s, "\"");
        assert(children@.take(i + 1).drop_last() =~= children@.take(i as int));
        assert(children@.take(i + 1).last() == children@[i as int]);
        i = i + 1;
    }
    s
}

} // verus!
