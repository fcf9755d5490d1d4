//! How a shortcut finds and activates its element: the places to look, in
//! order (the stored node path, a search by name and automation id, then the
//! stored ancestors from the nearest up), and the activation modes to try on
//! what is found.

use vstd::prelude::*;
use crate::models::{ShortcutItem, UiNode};
use crate::text::str_eq;

verus! {

/// A way of activating an element.
#[derive(Debug, Clone, Copy, PartialEq, Eq, Structural)]
pub enum ActivationMode {
    Select,
    Invoke,
    Toggle,
    Expand,
    LegacyIAccessible,
    Click,
}

/// The activation modes, in the order in which they are tried.
pub open spec fn activation_order() -> Seq<ActivationMode> {
    seq![
        ActivationMode::Select,
        ActivationMode::Invoke,
        ActivationMode::Toggle,
        ActivationMode::Expand,
        ActivationMode::LegacyIAccessible,
        ActivationMode::Click,
    ]
}

/// The activation modes, in the order in which they are tried: Select,
/// Invoke, Toggle, Expand, LegacyIAccessible, Click.
pub fn activation_modes() -> (res: Vec<ActivationMode>)
    ensures
        res@ == activation_order(),
{
    let mut res = Vec::new();
    res.push(ActivationMode::Select);
    res.push(ActivationMode::Invoke);
    res.push(ActivationMode::Toggle);
    res.push(ActivationMode::Expand);
    res.push(ActivationMode::LegacyIAccessible);
    res.push(ActivationMode::Click);
    assert(res@ =~= activation_order());
    res
}

/// A place where the element of a shortcut may be found.
#[derive(Debug)]
pub enum InvokeTarget {
    /// The node with this id, resolved from the window root.
    Path(String),
    /// An element of the window with this name and automation id (a text
    /// `Not Supported` stands for a property that is not known).
    Search { name: String, automation_id: String },
}

/// The text of a property that could not be read.
pub open spec fn unknown_text() -> Seq<char> {
    "Not Supported"@
}

/// The node can be searched for: its name or its automation id is known.
pub open spec fn searchable(node: UiNode) -> bool {
    node.name@ != unknown_text() || node.automation_id@ != unknown_text()
}

/// `t` is the target that resolves the node with id `id`.
pub open spec fn is_path_target(t: InvokeTarget, id: Seq<char>) -> bool {
    t matches InvokeTarget::Path(p) && p@ == id
}

/// The number of stored ancestors above the node itself (the last stored
/// node is the node).
pub open spec fn fallback_count(item: ShortcutItem) -> int {
    if item.ancestors.len() == 0 {
        0
    } else {
        item.ancestors.len() - 1
    }
}

/// The places to look for the element of `item`, in order: its node path,
/// then (where the node has a known name or automation id) a search for it,
/// then each stored ancestor above it, nearest first.
pub open spec fn targets_of(t: Seq<InvokeTarget>, item: ShortcutItem) -> bool {
    let s: int = if searchable(item.node) {
        2
    } else {
        1
    };
    let n = fallback_count(item);
    &&& t.len() == s + n
    &&& is_path_target(t[0], item.node.id@)
    &&& searchable(item.node) ==> (t[1] matches InvokeTarget::Search { name, automation_id }
        && name@ == item.node.name@ && automation_id@ == item.node.automation_id@)
    &&& forall|k: int|
        0 <= k < n ==> is_path_target(#[trigger] t[s + k], item.ancestors@[n - 1 - k].id@)
}

/// The places to look for the element of the shortcut `item`, in order.
pub fn invoke_targets(item: &ShortcutItem) -> (res: Vec<InvokeTarget>)
    ensures
        targets_of(res@, *item),
{
    let mut res: Vec<InvokeTarget> = Vec::new();
    res.push(InvokeTarget::Path(item.node.id.clone()));
    let unknown = "Not Supported";
    let can_search = !str_eq(item.node.name.as_str(), unknown) || !str_eq(
        item.node.automation_id.as_str(),
        unknown,
    );
    if can_search {
        res.push(
            InvokeTarget::Search {
                name: item.node.name.clone(),
                automation_id: item.node.automation_id.clone(),
            },
        );
    }
    let ghost s: int = if can_search {
        2
    } else {
        1
    };
    let n: usize = if item.ancestors.len() == 0 {
        0
    } else {
        item.ancestors.len() - 1
    };
    let mut k: usize = 0;
    while k < n
        invariant
            n == fallback_count(*item),
            n < item.ancestors.len() || n == 0,
            k <= n,
            res.len() == s + k,
            is_path_target(res@[0], item.node.id@),
            s == 2 ==> (res@[1] matches InvokeTarget::Search { name, automation_id } && name@
                == item.node.name@ && automation_id@ == item.node.automation_id@),
            s == (if searchable(item.node) {
                2int
            } else {
                1int
            }),
            forall|q: int|
                0 <= q < k ==> is_path_target(#[trigger] res@[s + q], item.ancestors@[n - 1 - q].id@),
        decreases n - k,
    {
        let a = &item.ancestors[n - 1 - k];
        res.push(InvokeTarget::Path(a.id.clone()));
        k = k + 1;
    }
    res
}

/// A found element is the stored node: every property of the node among
/// its name and automation id that is known is equal in the element, and
/// at least one is known.
pub open spec fn search_hit(node: UiNode, name: Seq<char>, automation_id: Seq<char>) -> bool {
    &&& searchable(node)
    &&& node.name@ != unknown_text() ==> name == node.name@
    &&& node.automation_id@ != unknown_text() ==> automation_id == node.automation_id@
}

/// Whether an element with the (rendered) `name` and `automation_id` found
/// by the search is the stored node `node`.
pub fn search_matches(node: &UiNode, name: &str, automation_id: &str) -> (res: bool)
    ensures
        res == search_hit(*node, name@, automation_id@),
{
    let unknown = "Not Supported";
    let name_known = !str_eq(node.name.as_str(), unknown);
    let id_known = !str_eq(node.automation_id.as_str(), unknown);
    if !name_known && !id_known {
        return false;
    }
    if name_known && !str_eq(name, node.name.as_str()) {
        return false;
    }
    if id_known && !str_eq(automation_id, node.automation_id.as_str()) {
        return false;
    }
    true
}

// ---------------------------------------------------------------------------
// One run of a shortcut
// ---------------------------------------------------------------------------

/// The number of activation modes.
pub const MODE_COUNT: usize = 6;

/// The activation mode tried `index`-th.
pub fn activation_mode(index: usize) -> (res: ActivationMode)
    requires
        index < MODE_COUNT,
    ensures
        res == activation_order()[index as int],
{
    match index {
        0 => ActivationMode::Select,
        1 => ActivationMode::Invoke,
        2 => ActivationMode::Toggle,
        3 => ActivationMode::Expand,
        4 => ActivationMode::LegacyIAccessible,
        _ => ActivationMode::Click,
    }
}

/// Where a run of a shortcut stands.
#[derive(Debug, Clone, Copy, PartialEq, Eq, Structural)]
pub enum InvokePhase {
    /// The element at the `target`-th place is to be looked up.
    Find { target: usize },
    /// The element found at the `target`-th place is to be activated with
    /// the `mode`-th activation mode.
    Activate { target: usize, mode: usize },
    /// An activation succeeded.
    Succeeded,
    /// Every place was tried and nothing could be activated.
    Failed,
}

/// A run of a shortcut: its phase, the number of places to look, and the
/// message of the last failure.
pub struct InvokeState {
    pub phase: InvokePhase,
    pub target_count: nat,
    pub last_error: Seq<char>,
}

/// The phase fits the places and modes there are.
pub open spec fn run_wf(s: InvokeState) -> bool {
    &&& s.target_count <= usize::MAX
    &&& match s.phase {
        InvokePhase::Find { target } => target < s.target_count,
        InvokePhase::Activate { target, mode } => target < s.target_count && mode < MODE_COUNT,
        _ => true,
    }
}

/// What follows when nothing could be activated at the `target`-th place:
/// the next place, or failure after the last.
pub open spec fn next_target(target: usize, count: nat) -> InvokePhase {
    if target + 1 < count {
        InvokePhase::Find { target: (target + 1) as usize }
    } else {
        InvokePhase::Failed
    }
}

/// The run after the lookup of the current place: an element found is
/// activated with the first mode; a failed lookup moves on to the next place.
pub open spec fn found_next(s: InvokeState, found: Result<(), Seq<char>>) -> InvokeState {
    match s.phase {
        InvokePhase::Find { target } => match found {
            Ok(_) => InvokeState { phase: InvokePhase::Activate { target, mode: 0 }, ..s },
            Err(e) => InvokeState { phase: next_target(target, s.target_count), last_error: e, ..s },
        },
        _ => s,
    }
}

/// The run after an activation: success ends it; a failure tries the next
/// mode on the same element, and after the last mode the next place.
pub open spec fn activated_next(s: InvokeState, outcome: Result<(), Seq<char>>) -> InvokeState {
    match s.phase {
        InvokePhase::Activate { target, mode } => match outcome {
            Ok(_) => InvokeState { phase: InvokePhase::Succeeded, ..s },
            Err(e) => InvokeState {
                phase: if mode + 1 < MODE_COUNT {
                    InvokePhase::Activate { target, mode: (mode + 1) as usize }
                } else {
                    next_target(target, s.target_count)
                },
                last_error: e,
                ..s
            },
        },
        _ => s,
    }
}

/// How many more outcomes the run can take at most.
pub open spec fn remaining(s: InvokeState) -> int {
    match s.phase {
        InvokePhase::Find { target } => (s.target_count - target) * (MODE_COUNT + 1),
        InvokePhase::Activate { target, mode } => (s.target_count - target) * (MODE_COUNT + 1) - 1 - mode,
        _ => 0,
    }
}

/// The view of a result whose error is a text.
pub open spec fn outcome_view(r: Result<(), String>) -> Result<(), Seq<char>> {
    match r {
        Ok(_) => Ok(()),
        Err(e) => Err(e@),
    }
}

/// Tries the places where the element of a shortcut may be, in order, and
/// on each element found the activation modes, in order, until one
/// activation succeeds.
pub struct InvokeRun {
    phase: InvokePhase,
    target_count: usize,
    last_error: String,
}

impl View for InvokeRun {
    type V = InvokeState;

    closed spec fn view(&self) -> InvokeState {
        InvokeState {
            phase: self.phase,
            target_count: self.target_count as nat,
            last_error: self.last_error@,
        }
    }
}

impl InvokeRun {
    #[verifier::type_invariant]
    spec fn inv(&self) -> bool {
        run_wf(self@)
    }

    /// A run over `target_count` places, at the first, before any failure.
    pub fn start(target_count: usize) -> (res: Self)
        requires
            target_count > 0,
        ensures
            res@.phase == (InvokePhase::Find { target: 0 }),
            res@.target_count == target_count,
            res@.last_error == Seq::<char>::empty(),
    {
        InvokeRun { phase: InvokePhase::Find { target: 0 }, target_count, last_error: String::new() }
    }

    /// Where the run stands.
    pub fn phase(&self) -> (res: InvokePhase)
        ensures
            res == self@.phase,
            run_wf(self@),
    {
        proof {
            use_type_invariant(self);
        }
        self.phase
    }

    /// The message of the last failure.
    pub fn last_error(&self) -> (res: String)
        ensures
            res@ == self@.last_error,
    {
        self.last_error.clone()
    }

    /// The activation mode to try now.
    pub fn mode(&self) -> (res: ActivationMode)
        requires
            self@.phase is Activate,
        ensures
            res == activation_order()[self@.phase->Activate_mode as int],
    {
        proof {
            use_type_invariant(self);
        }
        match self.phase {
            InvokePhase::Activate { mode, .. } => activation_mode(mode),
            _ => ActivationMode::Click,
        }
    }

    /// Records the lookup of the current place.
    pub fn on_found(&mut self, found: Result<(), String>)
        requires
            old(self)@.phase is Find,
        ensures
            final(self)@ == found_next(old(self)@, outcome_view(found)),
    {
        proof {
            use_type_invariant(&*self);
        }
        if let InvokePhase::Find { target } = self.phase {
            match found {
                Ok(()) => {
                    self.phase = InvokePhase::Activate { target, mode: 0 };
                },
                Err(e) => {
                    self.phase = self.after_target(target);
                    self.last_error = e;
                },
            }
        }
    }

    /// Records the outcome of the current activation.
    pub fn on_activated(&mut self, outcome: Result<(), String>)
        requires
            old(self)@.phase is Activate,
        ensures
            final(self)@ == activated_next(old(self)@, outcome_view(outcome)),
    {
        proof {
            use_type_invariant(&*self);
        }
        if let InvokePhase::Activate { target, mode } = self.phase {
            match outcome {
                Ok(()) => {
                    self.phase = InvokePhase::Succeeded;
                },
                Err(e) => {
                    self.phase = if mode + 1 < MODE_COUNT {
                        InvokePhase::Activate { target, mode: mode + 1 }
                    } else {
                        self.after_target(target)
                    };
                    self.last_error = e;
                },
            }
        }
    }

    fn after_target(&self, target: usize) -> (res: InvokePhase)
        requires
            target < self@.target_count,
        ensures
            res == next_target(target, self@.target_count),
            run_wf(InvokeState { phase: res, ..self@ }),
    {
        if target + 1 < self.target_count {
            InvokePhase::Find { target: target + 1 }
        } else {
            InvokePhase::Failed
        }
    }
}

/// Every outcome brings a run closer to its end: from a phase that is
/// neither success nor failure, the next phase has fewer outcomes left, so
/// a run over `n` places ends after at most `7 n` outcomes.
pub proof fn lemma_run_progress(s: InvokeState, outcome: Result<(), Seq<char>>)
    requires
        run_wf(s),
    ensures
        s.phase is Find ==> run_wf(found_next(s, outcome)) && 0 <= remaining(found_next(s, outcome)) < remaining(s),
        s.phase is Activate ==> run_wf(activated_next(s, outcome)) && 0 <= remaining(activated_next(s, outcome)) < remaining(s),
        remaining(s) <= s.target_count * (MODE_COUNT + 1),
{
    match s.phase {
        InvokePhase::Find { target } => {
            assert((s.target_count - target) * 7 >= 7) by (nonlinear_arith)
                requires s.target_count - target >= 1;
            assert((s.target_count - target - 1) * 7 == (s.target_count - target) * 7 - 7) by (nonlinear_arith);
            assert((s.target_count - target) * 7 <= s.target_count * 7) by (nonlinear_arith)
                requires target >= 0;
        },
        InvokePhase::Activate { target, mode } => {
            assert((s.target_count - target) * 7 >= 7) by (nonlinear_arith)
                requires s.target_count - target >= 1;
            assert((s.target_count - target - 1) * 7 == (s.target_count - target) * 7 - 7) by (nonlinear_arith);
            assert((s.target_count - target) * 7 <= s.target_count * 7) by (nonlinear_arith)
                requires target >= 0;
        },
        _ => {},
    }
}

/// A run ends in success exactly when an activation succeeded, and fails
/// only at the last place: a lookup or activation failure elsewhere moves
/// on without ending the run.
pub proof fn lemma_run_outcomes(s: InvokeState, outcome: Result<(), Seq<char>>)
    requires
        run_wf(s),
    ensures
        s.phase is Activate ==> ((activated_next(s, outcome).phase is Succeeded) <==> outcome is Ok),
        s.phase is Find ==> !(found_next(s, outcome).phase is Succeeded),
        s.phase is Find && found_next(s, outcome).phase is Failed ==> outcome is Err && s.phase->Find_target
            == s.target_count - 1,
        s.phase is Activate && activated_next(s, outcome).phase is Failed ==> outcome is Err
            && s.phase->Activate_target == s.target_count - 1 && s.phase->Activate_mode == MODE_COUNT - 1,
{
}

} // verus!
