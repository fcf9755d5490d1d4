//! The shortcut store: which elements are shortcuts, their hotkeys, and the
//! hotkey registry rebuilt from them.

use vstd::prelude::*;
use crate::hotkeys::{
    HotkeySequence, Key, hotkey_spec, idle_state, lemma_accepted_hotkey_fires, press_all, release_all,
    sequence_matches,
};
use crate::models::{ProcessWindow, ShortcutItem, ShortcutStore, UiNode, same_item};
use crate::node_path::{shortcut_id_of, shortcut_id_spec};
use crate::text::{eq_ignore_ascii_case, eq_ignore_ascii_case_spec, is_blank, is_blank_seq, str_eq, trim, trim_seq};

verus! {

// ---------------------------------------------------------------------------
// Specifications
// ---------------------------------------------------------------------------

/// Some shortcut in `items` has the id `id`.
pub open spec fn has_id(items: Seq<ShortcutItem>, id: Seq<char>) -> bool {
    exists|k: int| 0 <= k < items.len() && (#[trigger] items[k]).id@ == id
}

/// The position of the first shortcut with the id `id`, if any.
pub open spec fn first_with_id(items: Seq<ShortcutItem>, id: Seq<char>, k: int) -> bool {
    &&& 0 <= k < items.len()
    &&& items[k].id@ == id
    &&& forall|j: int| 0 <= j < k ==> (#[trigger] items[j]).id@ != id
}

/// `items` without the shortcuts with the id `id`, order kept.
pub open spec fn without_id(items: Seq<ShortcutItem>, id: Seq<char>) -> Seq<ShortcutItem>
    decreases items.len(),
{
    if items.len() == 0 {
        Seq::empty()
    } else {
        let rest = without_id(items.drop_last(), id);
        if items.last().id@ == id {
            rest
        } else {
            rest.push(items.last())
        }
    }
}

/// No two shortcuts share an id.
pub open spec fn ids_unique(items: Seq<ShortcutItem>) -> bool {
    forall|a: int, b: int| 0 <= a < b < items.len() ==> items[a].id@ != items[b].id@
}

/// No two shortcuts with different ids have non-empty hotkeys that are equal
/// up to ASCII case.
pub open spec fn hotkeys_distinct(items: Seq<ShortcutItem>) -> bool {
    forall|a: int, b: int|
        #![trigger items[a], items[b]]
        0 <= a < items.len() && 0 <= b < items.len() && items[a].id@ != items[b].id@
            && items[a].hotkey@.len() > 0 && items[b].hotkey@.len() > 0 ==> !eq_ignore_ascii_case_spec(
            items[a].hotkey@,
            items[b].hotkey@,
        )
}

/// The text a new shortcut shows before it has a hotkey.
pub open spec fn unbound_status(supports_invoke: bool) -> Seq<char> {
    if supports_invoke {
        "未绑定"@
    } else {
        "无法调用"@
    }
}

/// The hotkey `hotkey` (already trimmed) is taken by a shortcut other than
/// `item_id`.
pub open spec fn hotkey_taken(items: Seq<ShortcutItem>, item_id: Seq<char>, hotkey: Seq<char>) -> bool {
    &&& hotkey.len() > 0
    &&& exists|k: int|
        0 <= k < items.len() && (#[trigger] items[k]).id@ != item_id && eq_ignore_ascii_case_spec(
            items[k].hotkey@,
            hotkey,
        )
}

/// `b` is `a` with only its hotkey replaced by `hotkey`.
pub open spec fn with_hotkey(a: ShortcutItem, b: ShortcutItem, hotkey: Seq<char>) -> bool {
    &&& b.id == a.id
    &&& b.process == a.process
    &&& b.node == a.node
    &&& b.ancestors == a.ancestors
    &&& b.hotkey@ == hotkey
    &&& b.enabled == a.enabled
    &&& b.supports_invoke == a.supports_invoke
    &&& b.status == a.status
}

/// A shortcut whose hotkey gets registered: it can be invoked and its
/// hotkey is not blank.
pub open spec fn wants_hotkey(item: ShortcutItem) -> bool {
    item.supports_invoke && !is_blank_seq(item.hotkey@)
}

/// The state (`enabled`, status text) that rebuilding the registry gives a
/// shortcut, or `None` where it leaves the shortcut as it is (a hotkey on an
/// element that cannot be invoked).
pub open spec fn rebuilt_status(item: ShortcutItem) -> Option<(bool, Seq<char>)> {
    if wants_hotkey(item) {
        match hotkey_spec(item.hotkey@) {
            Ok(_) => Some((true, "待命"@)),
            Err(e) => Some((false, e)),
        }
    } else if is_blank_seq(item.hotkey@) {
        Some((false, unbound_status(item.supports_invoke)))
    } else {
        None
    }
}

/// `b` is `a` after rebuilding the registry.
pub open spec fn rebuilt_item(a: ShortcutItem, b: ShortcutItem) -> bool {
    &&& b.id == a.id
    &&& b.process == a.process
    &&& b.node == a.node
    &&& b.ancestors == a.ancestors
    &&& b.hotkey == a.hotkey
    &&& b.supports_invoke == a.supports_invoke
    &&& match rebuilt_status(a) {
        Some((enabled, status)) => b.enabled == enabled && b.status@ == status,
        None => b.enabled == a.enabled && b.status == a.status,
    }
}

/// The hotkey registry of `items`: for the id of every shortcut whose hotkey
/// gets registered and reads, its modifiers and keys (the last such shortcut
/// wins where ids repeat).
pub open spec fn registry_of(items: Seq<ShortcutItem>) -> Map<Seq<char>, (Seq<Key>, Seq<Key>)>
    decreases items.len(),
{
    if items.len() == 0 {
        Map::empty()
    } else {
        let r = registry_of(items.drop_last());
        let it = items.last();
        if wants_hotkey(it) && hotkey_spec(it.hotkey@) is Ok {
            r.insert(it.id@, hotkey_spec(it.hotkey@)->Ok_0)
        } else {
            r
        }
    }
}

/// The registered hotkeys `v` as a map from shortcut id to modifiers and keys.
pub open spec fn sequences_map(v: Seq<HotkeySequence>) -> Map<Seq<char>, (Seq<Key>, Seq<Key>)>
    decreases v.len(),
{
    if v.len() == 0 {
        Map::empty()
    } else {
        sequences_map(v.drop_last()).insert(v.last().item_id@, (v.last().modifiers@, v.last().keys@))
    }
}

/// No two registered hotkeys belong to the same shortcut.
pub open spec fn sequence_ids_unique(v: Seq<HotkeySequence>) -> bool {
    forall|a: int, b: int| 0 <= a < b < v.len() ==> v[a].item_id@ != v[b].item_id@
}

// ---------------------------------------------------------------------------
// Lemmas on the specifications
// ---------------------------------------------------------------------------

proof fn lemma_without_id_push(items: Seq<ShortcutItem>, id: Seq<char>, j: int)
    requires
        0 <= j < items.len(),
    ensures
        without_id(items.take(j + 1), id) == if items[j].id@ == id {
            without_id(items.take(j), id)
        } else {
            without_id(items.take(j), id).push(items[j])
        },
{
    assert(items.take(j + 1).drop_last() =~= items.take(j));
    assert(items.take(j + 1).last() == items[j]);
}

proof fn lemma_without_id_absent(items: Seq<ShortcutItem>, id: Seq<char>)
    ensures
        !has_id(without_id(items, id), id),
        without_id(items, id).len() <= items.len(),
        ids_unique(items) ==> ids_unique(without_id(items, id)),
        forall|k: int|
            0 <= k < without_id(items, id).len() ==> has_id(items, (#[trigger] without_id(items, id)[k]).id@),
    decreases items.len(),
{
    if items.len() > 0 {
        let t = items.drop_last();
        lemma_without_id_absent(t, id);
        let r = without_id(t, id);
        assert(ids_unique(items) ==> ids_unique(t)) by {
            if ids_unique(items) {
                assert forall|a: int, b: int| 0 <= a < b < t.len() implies t[a].id@ != t[b].id@ by {
                    assert(t[a] == items[a] && t[b] == items[b]);
                }
            }
        }
        assert forall|k: int| 0 <= k < r.len() implies has_id(items, (#[trigger] r[k]).id@) by {
            let q = choose|q: int| 0 <= q < t.len() && (#[trigger] t[q]).id@ == r[k].id@;
            assert(items[q] == t[q]);
        }
        if items.last().id@ != id {
            let s = r.push(items.last());
            assert(!has_id(s, id)) by {
                if has_id(s, id) {
                    let q = choose|q: int| 0 <= q < s.len() && (#[trigger] s[q]).id@ == id;
                    if q < r.len() {
                        assert(s[q] == r[q]);
                    }
                }
            }
            assert forall|k: int| 0 <= k < s.len() implies has_id(items, (#[trigger] s[k]).id@) by {
                if k < r.len() {
                    assert(s[k] == r[k]);
                } else {
                    assert(items[items.len() - 1] == s[k]);
                }
            }
            if ids_unique(items) {
                assert forall|a: int, b: int| 0 <= a < b < s.len() implies s[a].id@ != s[b].id@ by {
                    if b == s.len() - 1 {
                        assert(s[a] == r[a]);
                        lemma_without_id_from(t, id, a);
                        let q = choose|q: int| 0 <= q < t.len() && (#[trigger] t[q]).id@ == r[a].id@;
                        assert(items[q] == t[q]);
                    } else {
                        assert(s[a] == r[a] && s[b] == r[b]);
                    }
                }
            }
        }
    }
}

proof fn lemma_without_id_from(items: Seq<ShortcutItem>, id: Seq<char>, k: int)
    requires
        0 <= k < without_id(items, id).len(),
    ensures
        has_id(items, without_id(items, id)[k].id@),
    decreases items.len(),
{
    let t = items.drop_last();
    let r = without_id(t, id);
    if k < r.len() {
        lemma_without_id_from(t, id, k);
        let q = choose|q: int| 0 <= q < t.len() && (#[trigger] t[q]).id@ == r[k].id@;
        assert(items[q] == t[q]);
        if items.last().id@ != id {
            assert(r.push(items.last())[k] == r[k]);
        }
    } else {
        assert(items[items.len() - 1].id@ == without_id(items, id)[k].id@);
    }
}

proof fn lemma_registry_insert_existing(v: Seq<HotkeySequence>, k: int, x: HotkeySequence)
    requires
        0 <= k < v.len(),
        sequence_ids_unique(v),
        x.item_id@ == v[k].item_id@,
    ensures
        sequences_map(v.update(k, x)) == sequences_map(v).insert(x.item_id@, (x.modifiers@, x.keys@)),
        sequence_ids_unique(v.update(k, x)),
    decreases v.len(),
{
    let w = v.update(k, x);
    assert(sequence_ids_unique(w)) by {
        assert forall|a: int, b: int| 0 <= a < b < w.len() implies w[a].item_id@ != w[b].item_id@ by {
            if a == k {
                assert(v[k].item_id@ != v[b].item_id@);
            } else if b == k {
                assert(v[a].item_id@ != v[k].item_id@);
            }
        }
    }
    let t = v.drop_last();
    assert(sequence_ids_unique(t)) by {
        assert forall|a: int, b: int| 0 <= a < b < t.len() implies t[a].item_id@ != t[b].item_id@ by {
            assert(t[a] == v[a] && t[b] == v[b]);
        }
    }
    if k == v.len() - 1 {
        assert(w.drop_last() =~= t);
        assert(!sequences_map(t).dom().contains(x.item_id@)) by {
            lemma_sequences_map_dom(t);
            if sequences_map(t).dom().contains(x.item_id@) {
                let q = choose|q: int| 0 <= q < t.len() && (#[trigger] t[q]).item_id@ == x.item_id@;
                assert(v[q].item_id@ != v[k].item_id@);
            }
        }
        assert(sequences_map(w) =~= sequences_map(v).insert(x.item_id@, (x.modifiers@, x.keys@)));
    } else {
        assert(w.drop_last() =~= t.update(k, x));
        lemma_registry_insert_existing(t, k, x);
        assert(x.item_id@ != v.last().item_id@);
        assert(sequences_map(w) =~= sequences_map(v).insert(x.item_id@, (x.modifiers@, x.keys@)));
    }
}

proof fn lemma_sequences_map_dom(v: Seq<HotkeySequence>)
    ensures
        forall|id: Seq<char>|
            #[trigger] sequences_map(v).dom().contains(id) <==> exists|q: int|
                0 <= q < v.len() && (#[trigger] v[q]).item_id@ == id,
    decreases v.len(),
{
    if v.len() > 0 {
        let t = v.drop_last();
        lemma_sequences_map_dom(t);
        assert forall|id: Seq<char>|
            #[trigger] sequences_map(v).dom().contains(id) <==> exists|q: int|
                0 <= q < v.len() && (#[trigger] v[q]).item_id@ == id by {
            if sequences_map(v).dom().contains(id) {
                if id == v.last().item_id@ {
                    assert(v[v.len() - 1].item_id@ == id);
                } else {
                    assert(sequences_map(t).dom().contains(id));
                    let q = choose|q: int| 0 <= q < t.len() && (#[trigger] t[q]).item_id@ == id;
                    assert(v[q] == t[q]);
                }
            }
            if exists|q: int| 0 <= q < v.len() && (#[trigger] v[q]).item_id@ == id {
                let q = choose|q: int| 0 <= q < v.len() && (#[trigger] v[q]).item_id@ == id;
                if q < t.len() {
                    assert(t[q] == v[q]);
                    assert(t[q].item_id@ == id);
                    assert(sequences_map(t).dom().contains(id));
                    assert(sequences_map(v) == sequences_map(t).insert(v.last().item_id@, (v.last().modifiers@, v.last().keys@)));
                } else {
                    assert(v.last().item_id@ == id);
                }
            }
        }
    }
}

proof fn lemma_sequences_map_value(v: Seq<HotkeySequence>, id: Seq<char>)
    requires
        sequences_map(v).dom().contains(id),
    ensures
        exists|q: int|
            0 <= q < v.len() && (#[trigger] v[q]).item_id@ == id && (v[q].modifiers@, v[q].keys@)
                == sequences_map(v)[id],
    decreases v.len(),
{
    let t = v.drop_last();
    if v.last().item_id@ == id {
        assert(v[v.len() - 1] == v.last());
    } else {
        lemma_sequences_map_value(t, id);
        let q = choose|q: int|
            0 <= q < t.len() && (#[trigger] t[q]).item_id@ == id && (t[q].modifiers@, t[q].keys@)
                == sequences_map(t)[id];
        assert(v[q] == t[q]);
    }
}

// ---------------------------------------------------------------------------
// Operations
// ---------------------------------------------------------------------------

/// The position of the registered hotkey of the shortcut `id`, if any.
fn position_of_sequence(registry: &Vec<HotkeySequence>, id: &str) -> (res: Option<usize>)
    ensures
        match res {
            Some(r) => r < registry.len() && registry@[r as int].item_id@ == id@,
            None => forall|r: int| 0 <= r < registry.len() ==> (#[trigger] registry@[r]).item_id@ != id@,
        },
{
    let mut q: usize = 0;
    while q < registry.len()
        invariant
            q <= registry.len(),
            forall|r: int| 0 <= r < q ==> (#[trigger] registry@[r]).item_id@ != id@,
        decreases registry.len() - q,
    {
        if str_eq(registry[q].item_id.as_str(), id) {
            return Some(q);
        }
        q = q + 1;
    }
    None
}

impl ShortcutStore {
    /// Whether some shortcut has the id `id`.
    pub fn contains_id(&self, id: &str) -> (res: bool)
        ensures
            res == has_id(self.items@, id@),
    {
        let mut i: usize = 0;
        while i < self.items.len()
            invariant
                i <= self.items.len(),
                forall|j: int| 0 <= j < i ==> (#[trigger] self.items@[j]).id@ != id@,
            decreases self.items.len() - i,
        {
            if str_eq(self.items[i].id.as_str(), id) {
                return true;
            }
            i = i + 1;
        }
        false
    }

    /// Whether the node `node_id` of the window `process` is a shortcut.
    pub fn shortcut_enabled(&self, process: &ProcessWindow, node_id: &str) -> (res: bool)
        ensures
            res == has_id(self.items@, shortcut_id_spec(process.hwnd, node_id@)),
    {
        let id = shortcut_id_of(process.hwnd, node_id);
        self.contains_id(id.as_str())
    }

    /// The position of the first shortcut with the id `id`, if any.
    fn position_of(&self, id: &str) -> (res: Option<usize>)
        ensures
            match res {
                Some(k) => first_with_id(self.items@, id@, k as int),
                None => !has_id(self.items@, id@),
            },
    {
        let mut i: usize = 0;
        while i < self.items.len()
            invariant
                i <= self.items.len(),
                forall|j: int| 0 <= j < i ==> (#[trigger] self.items@[j]).id@ != id@,
            decreases self.items.len() - i,
        {
            if str_eq(self.items[i].id.as_str(), id) {
                return Some(i);
            }
            i = i + 1;
        }
        None
    }

    /// A copy of the first shortcut with the id `id`, if any.
    pub fn find_item(&self, id: &str) -> (res: Option<ShortcutItem>)
        ensures
            match res {
                Some(item) => exists|k: int|
                    first_with_id(self.items@, id@, k) && same_item(item, #[trigger] self.items@[k]),
                None => !has_id(self.items@, id@),
            },
    {
        match self.position_of(id) {
            Some(k) => {
                let item = self.items[k].clone();
                assert(first_with_id(self.items@, id@, k as int));
                Some(item)
            },
            None => None,
        }
    }

    /// The shortcut to invoke for `item_id`, or the message that it does
    /// not exist.
    pub fn invoke_shortcut(&self, item_id: &str) -> (res: Result<ShortcutItem, String>)
        ensures
            match res {
                Ok(item) => exists|k: int|
                    first_with_id(self.items@, item_id@, k) && same_item(item, #[trigger] self.items@[k]),
                Err(e) => !has_id(self.items@, item_id@) && e@ == "快捷操作不存在"@,
            },
    {
        match self.find_item(item_id) {
            Some(item) => Ok(item),
            None => Err(String::from_str("快捷操作不存在")),
        }
    }

    /// Removes every shortcut with the id `id`, keeping the order of the
    /// others.
    pub fn remove_shortcut(&mut self, item_id: &str)
        ensures
            final(self).items@ == without_id(old(self).items@, item_id@),
    {
        let ghost orig = self.items@;
        let mut i: usize = 0;
        let ghost mut j: int = 0;
        assert(orig.take(0) =~= Seq::<ShortcutItem>::empty());
        assert(orig.skip(0) =~= orig);
        while i < self.items.len()
            invariant
                0 <= j <= orig.len(),
                i == without_id(orig.take(j), item_id@).len(),
                self.items@ == without_id(orig.take(j), item_id@) + orig.skip(j),
            decreases self.items.len() - i,
        {
            let ghost kept = without_id(orig.take(j), item_id@);
            assert(self.items@[i as int] == orig[j]);
            proof {
                lemma_without_id_push(orig, item_id@, j);
            }
            if str_eq(self.items[i].id.as_str(), item_id) {
                self.items.remove(i);
                assert(self.items@ =~= kept + orig.skip(j + 1));
            } else {
                assert(self.items@ =~= kept.push(orig[j]) + orig.skip(j + 1));
                i = i + 1;
            }
            proof {
                j = j + 1;
            }
        }
        assert(orig.skip(j).len() == 0);
        assert(orig.take(j) =~= orig);
        assert(self.items@ =~= without_id(orig, item_id@));
    }

    /// Whether setting the membership of the node `node_id` of `process` to
    /// `checked` needs the node resolved: it does when the node is to become
    /// a shortcut and is not one yet.
    pub fn membership_needs_node(&self, process: &ProcessWindow, node_id: &str, checked: bool) -> (res: bool)
        ensures
            res == (checked && !has_id(self.items@, shortcut_id_spec(process.hwnd, node_id@))),
    {
        if !checked {
            return false;
        }
        !self.shortcut_enabled(process, node_id)
    }

    /// Makes the node `node_id` of `process` a shortcut (`checked`) or not.
    /// A new shortcut is added at the end, built from `resolved`: the nodes
    /// from the window root down to the element, and whether the element can
    /// be invoked; it starts without a hotkey and disabled. Unchecking
    /// removes every shortcut with the node's id.
    pub fn set_shortcut_membership(
        &mut self,
        process: ProcessWindow,
        node_id: &str,
        checked: bool,
        resolved: Option<(Vec<UiNode>, bool)>,
    )
        requires
            checked && !has_id(old(self).items@, shortcut_id_spec(process.hwnd, node_id@)) ==> (
            resolved matches Some((ancestors, _)) && ancestors.len() >= 1),
        ensures
            ({
                let id = shortcut_id_spec(process.hwnd, node_id@);
                let old_items = old(self).items@;
                let new_items = final(self).items@;
                &&& checked && has_id(old_items, id) ==> new_items == old_items
                &&& checked && !has_id(old_items, id) ==> {
                    &&& resolved matches Some((ancestors, supports)) && {
                        let item = new_items.last();
                        &&& new_items.len() == old_items.len() + 1
                        &&& new_items.drop_last() == old_items
                        &&& item.id@ == id
                        &&& item.process == process
                        &&& item.node == ancestors@.last()
                        &&& item.ancestors@ == ancestors@
                        &&& item.hotkey@ == Seq::<char>::empty()
                        &&& !item.enabled
                        &&& item.supports_invoke == supports
                        &&& item.status@ == unbound_status(supports)
                    }
                }
                &&& !checked ==> new_items == without_id(old_items, id)
                &&& checked ==> has_id(new_items, id)
                &&& !checked ==> !has_id(new_items, id)
                &&& ids_unique(old_items) ==> ids_unique(new_items)
            }),
    {
        let id = shortcut_id_of(process.hwnd, node_id);
        let ghost old_items = self.items@;
        proof {
            lemma_without_id_absent(old_items, id@);
        }
        if checked {
            if !self.contains_id(id.as_str()) {
                let (ancestors, supports) = match resolved {
                    Some(r) => r,
                    None => {
                        assert(false);
                        return;
                    },
                };
                let last = ancestors.len() - 1;
                let node = ancestors[last].clone();
                let status = if supports {
                    String::from_str("未绑定")
                } else {
                    String::from_str("无法调用")
                };
                let item = ShortcutItem {
                    id,
                    process,
                    node,
                    ancestors,
                    hotkey: String::new(),
                    enabled: false,
                    supports_invoke: supports,
                    status,
                };
                self.items.push(item);
                assert(self.items@.drop_last() =~= old_items);
                assert(has_id(self.items@, id@)) by {
                    assert(self.items@[self.items@.len() - 1].id@ == id@);
                }
                assert(ids_unique(old_items) ==> ids_unique(self.items@)) by {
                    if ids_unique(old_items) {
                        assert forall|a: int, b: int| 0 <= a < b < self.items@.len() implies self.items@[a].id@
                            != self.items@[b].id@ by {
                            if b == self.items@.len() - 1 {
                                assert(self.items@[a] == old_items[a]);
                            } else {
                                assert(self.items@[a] == old_items[a]);
                                assert(self.items@[b] == old_items[b]);
                            }
                        }
                    }
                }
            }
        } else {
            self.remove_shortcut(id.as_str());
        }
    }

    /// Sets the hotkey of the shortcut `item_id` to `hotkey`, trimmed. A
    /// non-empty hotkey that another shortcut already has (up to ASCII case)
    /// is refused and nothing changes. Only the first shortcut with the id
    /// changes; with no such shortcut nothing changes.
    pub fn set_shortcut_hotkey(&mut self, item_id: &str, hotkey: &str) -> (res: Result<(), String>)
        ensures
            ({
                let normalized = trim_seq(hotkey@);
                let old_items = old(self).items@;
                let new_items = final(self).items@;
                &&& res is Err <==> hotkey_taken(old_items, item_id@, normalized)
                &&& res matches Err(e) ==> e@ == "快捷键已被其他元素占用"@ && new_items == old_items
                &&& res is Ok ==> {
                    &&& new_items.len() == old_items.len()
                    &&& forall|k: int|
                        0 <= k < old_items.len() ==> if first_with_id(old_items, item_id@, k) {
                            with_hotkey(old_items[k], #[trigger] new_items[k], normalized)
                        } else {
                            new_items[k] == old_items[k]
                        }
                }
                &&& res is Ok && hotkeys_distinct(old_items) ==> hotkeys_distinct(new_items)
            }),
    {
        let normalized = trim(hotkey);
        let ghost old_items = self.items@;
        if normalized.unicode_len() > 0 {
            let mut i: usize = 0;
            while i < self.items.len()
                invariant
                    i <= self.items.len(),
                    self.items@ == old_items,
                    normalized@ == trim_seq(hotkey@),
                    normalized@.len() > 0,
                    forall|j: int|
                        0 <= j < i ==> !((#[trigger] old_items[j]).id@ != item_id@
                            && eq_ignore_ascii_case_spec(old_items[j].hotkey@, normalized@)),
                decreases self.items.len() - i,
            {
                if !str_eq(self.items[i].id.as_str(), item_id) && eq_ignore_ascii_case(
                    self.items[i].hotkey.as_str(),
                    normalized.as_str(),
                ) {
                    assert(hotkey_taken(old_items, item_id@, normalized@)) by {
                        assert(old_items[i as int].id@ != item_id@);
                    }
                    return Err(String::from_str("快捷键已被其他元素占用"));
                }
                i = i + 1;
            }
        }
        assert(!hotkey_taken(old_items, item_id@, normalized@));
        match self.position_of(item_id) {
            Some(k) => {
                let mut item = self.items.remove(k);
                item.hotkey = normalized;
                self.items.insert(k, item);
                assert forall|j: int| 0 <= j < old_items.len() implies if first_with_id(
                    old_items,
                    item_id@,
                    j,
                ) {
                    with_hotkey(old_items[j], #[trigger] self.items@[j], trim_seq(hotkey@))
                } else {
                    self.items@[j] == old_items[j]
                } by {
                    if j == k {
                    } else {
                        assert(!first_with_id(old_items, item_id@, j));
                    }
                }
                assert(hotkeys_distinct(old_items) ==> hotkeys_distinct(self.items@)) by {
                    if hotkeys_distinct(old_items) {
                        let new_items = self.items@;
                        assert forall|a: int, b: int|
                            #![trigger new_items[a], new_items[b]]
                            0 <= a < new_items.len() && 0 <= b < new_items.len() && new_items[a].id@
                                != new_items[b].id@ && new_items[a].hotkey@.len() > 0
                                && new_items[b].hotkey@.len() > 0 implies !eq_ignore_ascii_case_spec(
                            new_items[a].hotkey@,
                            new_items[b].hotkey@,
                        ) by {
                            if a == k {
                                assert(new_items[a].id@ == item_id@);
                                assert(new_items[b] == old_items[b]);
                                assert(!(old_items[b].id@ != item_id@ && eq_ignore_ascii_case_spec(
                                    old_items[b].hotkey@,
                                    normalized@,
                                )));
                            } else if b == k {
                                assert(new_items[b].id@ == item_id@);
                                assert(new_items[a] == old_items[a]);
                                assert(!(old_items[a].id@ != item_id@ && eq_ignore_ascii_case_spec(
                                    old_items[a].hotkey@,
                                    normalized@,
                                )));
                            } else {
                                assert(new_items[a] == old_items[a]);
                                assert(new_items[b] == old_items[b]);
                            }
                        }
                    }
                }
            },
            None => {
                assert forall|j: int| 0 <= j < old_items.len() implies !first_with_id(
                    old_items,
                    item_id@,
                    j,
                ) by {
                    if first_with_id(old_items, item_id@, j) {
                        assert(has_id(old_items, item_id@));
                    }
                }
            },
        }
        Ok(())
    }

    /// Rebuilds the hotkey registry from the shortcuts and updates each
    /// shortcut's state: a shortcut that can be invoked and has a hotkey is
    /// registered and ready (`待命`) when its hotkey reads, and disabled with
    /// the reason otherwise; a shortcut without a hotkey is disabled and
    /// shows `未绑定` or, where it cannot be invoked, `无法调用`. Gives the
    /// registry, one entry per shortcut id.
    pub fn rebuild_hotkeys(&mut self) -> (res: Vec<HotkeySequence>)
        ensures
            final(self).items@.len() == old(self).items@.len(),
            forall|k: int|
                0 <= k < old(self).items@.len() ==> rebuilt_item(
                    old(self).items@[k],
                    #[trigger] final(self).items@[k],
                ),
            sequence_ids_unique(res@),
            sequences_map(res@) == registry_of(old(self).items@),
    {
        let ghost old_items = self.items@;
        let mut registry: Vec<HotkeySequence> = Vec::new();
        let mut i: usize = 0;
        assert(old_items.take(0) =~= Seq::<ShortcutItem>::empty());
        assert(sequences_map(registry@) =~= registry_of(old_items.take(0)));
        while i < self.items.len()
            invariant
                self.items@.len() == old_items.len(),
                i <= self.items.len(),
                forall|k: int| 0 <= k < i ==> rebuilt_item(old_items[k], #[trigger] self.items@[k]),
                forall|k: int| i <= k < old_items.len() ==> #[trigger] self.items@[k] == old_items[k],
                sequence_ids_unique(registry@),
                sequences_map(registry@) == registry_of(old_items.take(i as int)),
            decreases self.items.len() - i,
        {
            let ghost before = registry@;
            assert(old_items.take(i + 1).drop_last() =~= old_items.take(i as int));
            assert(old_items.take(i + 1).last() == old_items[i as int]);
            let mut item = self.items.remove(i);
            assert(item == old_items[i as int]);
            let blank = is_blank(item.hotkey.as_str());
            if item.supports_invoke && !blank {
                match HotkeySequence::from_hotkey_string(item.id.as_str(), item.hotkey.as_str()) {
                    Ok(seq) => {
                        let ghost sv = seq;
                        let found = position_of_sequence(&registry, seq.item_id.as_str());
                        match found {
                            Some(r) => {
                                proof {
                                    lemma_registry_insert_existing(registry@, r as int, sv);
                                }
                                registry.set(r, seq);
                            },
                            None => {
                                assert(!sequences_map(registry@).dom().contains(sv.item_id@)) by {
                                    lemma_sequences_map_dom(registry@);
                                }
                                registry.push(seq);
                                assert(registry@.drop_last() =~= before);
                                assert(sequence_ids_unique(registry@)) by {
                                    assert forall|a: int, b: int| 0 <= a < b < registry@.len() implies registry@[a].item_id@
                                        != registry@[b].item_id@ by {
                                        if b == registry@.len() - 1 {
                                            assert(registry@[a] == before[a]);
                                        } else {
                                            assert(registry@[a] == before[a] && registry@[b] == before[b]);
                                        }
                                    }
                                }
                            },
                        }
                        item.enabled = true;
                        item.status = String::from_str("待命");
                    },
                    Err(error) => {
                        item.enabled = false;
                        item.status = error;
                    },
                }
            } else if blank {
                item.enabled = false;
                item.status = if item.supports_invoke {
                    String::from_str("未绑定")
                } else {
                    String::from_str("无法调用")
                };
            }
            self.items.insert(i, item);
            i = i + 1;
        }
        assert(old_items.take(old_items.len() as int) =~= old_items);
        registry
    }
}

// ---------------------------------------------------------------------------
// Laws
// ---------------------------------------------------------------------------

/// Every registered hotkey belongs to a shortcut that rebuilding makes ready
/// (`待命`), and it is that shortcut's hotkey as read.
pub proof fn lemma_registered_shortcuts_ready(items: Seq<ShortcutItem>, id: Seq<char>)
    requires
        registry_of(items).dom().contains(id),
    ensures
        exists|k: int|
            0 <= k < items.len() && (#[trigger] items[k]).id@ == id && rebuilt_status(items[k]) == Some(
                (true, "待命"@),
            ) && hotkey_spec(items[k].hotkey@) == Ok::<(Seq<Key>, Seq<Key>), Seq<char>>(
                registry_of(items)[id],
            ),
    decreases items.len(),
{
    let t = items.drop_last();
    let it = items.last();
    if wants_hotkey(it) && hotkey_spec(it.hotkey@) is Ok && it.id@ == id {
        assert(items[items.len() - 1] == it);
    } else {
        lemma_registered_shortcuts_ready(t, id);
        let k = choose|k: int|
            0 <= k < t.len() && (#[trigger] t[k]).id@ == id && rebuilt_status(t[k]) == Some(
                (true, "待命"@),
            ) && hotkey_spec(t[k].hotkey@) == Ok::<(Seq<Key>, Seq<Key>), Seq<char>>(
                registry_of(t)[id],
            );
        assert(items[k] == t[k]);
    }
}

/// Rebuilding twice gives the same shortcut states as rebuilding once.
pub proof fn lemma_rebuild_idempotent(a: ShortcutItem, b: ShortcutItem, c: ShortcutItem)
    requires
        rebuilt_item(a, b),
        rebuilt_item(b, c),
    ensures
        c.enabled == b.enabled,
        c.status@ == b.status@,
        rebuilt_status(b) == rebuilt_status(a),
{
}

/// Where no two shortcuts share an id, a shortcut that can be invoked and
/// whose hotkey reads is registered under its id, with that hotkey, once the
/// registry is rebuilt.
pub proof fn lemma_ready_shortcuts_registered(items: Seq<ShortcutItem>, k: int)
    requires
        0 <= k < items.len(),
        ids_unique(items),
        rebuilt_status(items[k]) == Some((true, "待命"@)),
    ensures
        registry_of(items).dom().contains(items[k].id@),
        hotkey_spec(items[k].hotkey@) == Ok::<(Seq<Key>, Seq<Key>), Seq<char>>(
            registry_of(items)[items[k].id@],
        ),
    decreases items.len(),
{
    let t = items.drop_last();
    if k == items.len() - 1 {
        if wants_hotkey(items[k]) {
            assert(hotkey_spec(items[k].hotkey@) is Ok);
        } else {
            assert(false);
        }
    } else {
        assert(ids_unique(t)) by {
            assert forall|a: int, b: int| 0 <= a < b < t.len() implies t[a].id@ != t[b].id@ by {
                assert(t[a] == items[a] && t[b] == items[b]);
            }
        }
        assert(t[k] == items[k]);
        lemma_ready_shortcuts_registered(t, k);
        assert(items.last().id@ != items[k].id@);
    }
}

/// Once the registry is rebuilt, typing the hotkey of a shortcut that was
/// made ready is recognised: holding its modifiers, typing its keys and
/// releasing the modifiers completes exactly that chord, and the registry
/// holds that shortcut's hotkey, which matches the chord, so the search for
/// a matching hotkey finds one.
pub proof fn lemma_ready_shortcut_fires(items: Seq<ShortcutItem>, k: int, regs: Seq<HotkeySequence>)
    requires
        0 <= k < items.len(),
        ids_unique(items),
        rebuilt_status(items[k]) == Some((true, "待命"@)),
        sequences_map(regs) == registry_of(items),
    ensures
        hotkey_spec(items[k].hotkey@) matches Ok((mods, keys)) && {
            &&& release_all(press_all(idle_state(), mods + keys), mods) == (idle_state(), seq![(mods, keys)])
            &&& exists|j: int|
                0 <= j < regs.len() && regs[j].item_id@ == items[k].id@ && #[trigger] sequence_matches(
                    regs[j].modifiers@,
                    regs[j].keys@,
                    mods,
                    keys,
                )
        },
{
    let id = items[k].id@;
    lemma_ready_shortcuts_registered(items, k);
    lemma_sequences_map_value(regs, id);
    lemma_accepted_hotkey_fires(items[k].hotkey@);
    let (mods, keys) = hotkey_spec(items[k].hotkey@)->Ok_0;
    let q = choose|q: int|
        0 <= q < regs.len() && (#[trigger] regs[q]).item_id@ == id && (regs[q].modifiers@, regs[q].keys@)
            == sequences_map(regs)[id];
    assert(regs[q].modifiers@ == mods && regs[q].keys@ == keys);
    assert(sequence_matches(regs[q].modifiers@, regs[q].keys@, mods, keys));
}

proof fn lemma_without_absent_id(items: Seq<ShortcutItem>, id: Seq<char>)
    requires
        !has_id(items, id),
    ensures
        without_id(items, id) == items,
    decreases items.len(),
{
    if items.len() > 0 {
        let t = items.drop_last();
        assert(!has_id(t, id)) by {
            if has_id(t, id) {
                let q = choose|q: int| 0 <= q < t.len() && (#[trigger] t[q]).id@ == id;
                assert(items[q] == t[q]);
            }
        }
        lemma_without_absent_id(t, id);
        assert(items[items.len() - 1].id@ != id);
        assert(t.push(items.last()) =~= items);
    }
}

/// Checking a node that is not a shortcut and then unchecking it leaves the
/// shortcuts as they were: the shortcut added at the end is the only one
/// with its id, and removing that id takes exactly it away.
pub proof fn lemma_membership_round_trip(items: Seq<ShortcutItem>, item: ShortcutItem)
    requires
        !has_id(items, item.id@),
    ensures
        without_id(items.push(item), item.id@) == items,
{
    lemma_without_absent_id(items, item.id@);
    assert(items.push(item).drop_last() =~= items);
}

} // verus!
