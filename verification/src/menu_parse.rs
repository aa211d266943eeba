//! Translation of a caller-supplied menu description into native menu
//! entries, and flattening of the description's callbacks into the registry.
//!
//! A description node is one of three kinds: a separator, a submenu with
//! recursively translated children, or a clickable leaf item.  Items without
//! an identifier receive a generated 8-character identifier drawn from a
//! fixed alphabet.  Callback-bearing nodes contribute an entry to the flat
//! callback registry, keyed by their identifier (empty when absent); for a
//! duplicate key the last node in traversal order wins.

use vstd::prelude::*;

use crate::registry::CallbackRegistry;
use rand::Rng;

verus! {

/// One node of the caller-supplied menu description tree.
///
/// `callback` is an opaque handle the host resolves to an invocable
/// function; the library only routes it.
pub struct JsMenuItem {
    pub id: Option<String>,
    pub label: Option<String>,
    pub kind: Option<String>,
    pub enabled: Option<bool>,
    pub submenu: Option<Vec<JsMenuItem>>,
    pub callback: Option<u64>,
}

/// The ordered top-level menu description.
pub struct JsMenu {
    pub items: Vec<JsMenuItem>,
}

/// The node asks for a non-interactive divider.
pub open spec fn is_separator(item: JsMenuItem) -> bool {
    item.kind matches Some(k) && k@ == "separator"@
}

/// The node asks for a container with child entries.
pub open spec fn is_submenu(item: JsMenuItem) -> bool {
    item.kind matches Some(k) && k@ == "submenu"@
}

/// The label handed to the native entry: the node's label, or empty.
pub open spec fn spec_label(item: JsMenuItem) -> Seq<char> {
    match item.label {
        Some(l) => l@,
        None => Seq::empty(),
    }
}

/// The enabled flag handed to the native entry; absent means enabled.
pub open spec fn spec_enabled(item: JsMenuItem) -> bool {
    match item.enabled {
        Some(b) => b,
        None => true,
    }
}

/// The registry key a node contributes: its identifier, or empty.
pub open spec fn spec_key(item: JsMenuItem) -> Seq<char> {
    match item.id {
        Some(s) => s@,
        None => Seq::empty(),
    }
}

fn is_separator_item(item: &JsMenuItem) -> (r: bool)
    ensures
        r == is_separator(*item),
{
    match &item.kind {
        Some(k) => *k == "separator".to_owned(),
        None => false,
    }
}

fn is_submenu_item(item: &JsMenuItem) -> (r: bool)
    ensures
        r == is_submenu(*item),
{
    match &item.kind {
        Some(k) => *k == "submenu".to_owned(),
        None => false,
    }
}

/// The fixed alphabet generated identifiers are drawn from: upper- and
/// lower-case letters, digits, and a fixed set of symbols.
pub open spec fn id_alphabet() -> Seq<u8> {
    seq![
        65u8, 66u8, 67u8, 68u8, 69u8, 70u8, 71u8, 72u8, 73u8, 74u8, 75u8, 76u8, 77u8,
        78u8, 79u8, 80u8, 81u8, 82u8, 83u8, 84u8, 85u8, 86u8, 87u8, 88u8, 89u8, 90u8,
        97u8, 98u8, 99u8, 100u8, 101u8, 102u8, 103u8, 104u8, 105u8, 106u8, 107u8, 108u8, 109u8,
        110u8, 111u8, 112u8, 113u8, 114u8, 115u8, 116u8, 117u8, 118u8, 119u8, 120u8, 121u8, 122u8,
        48u8, 49u8, 50u8, 51u8, 52u8, 53u8, 54u8, 55u8, 56u8, 57u8, 41u8, 40u8, 42u8,
        38u8, 94u8, 37u8, 36u8, 35u8, 64u8, 33u8, 126u8,
    ]
}

/// A generated identifier: exactly 8 characters, all from the alphabet.
pub open spec fn is_generated_id(s: Seq<char>) -> bool {
    &&& s.len() == 8
    &&& forall|i: int|
        0 <= i < s.len() ==> ((((#[trigger] s[i]) as u32) < 128) && id_alphabet().contains(s[i] as u8))
}

/// Relies on rand::rng and rand::Rng::random_range: a randomly drawn
/// index strictly below `bound`.
#[verifier::external_body]
fn random_index(bound: usize) -> (r: usize)
    requires
        0 < bound,
    ensures
        r < bound,
{
    rand::rng().random_range(0..bound)
}

/// Relies on String::from_utf8: bytes below 128 are valid UTF-8 and decode
/// to the string holding exactly those characters.
#[verifier::external_body]
fn string_from_ascii(bytes: Vec<u8>) -> (r: String)
    requires
        forall|i: int| 0 <= i < bytes@.len() ==> bytes@[i] < 128,
    ensures
        r@.len() == bytes@.len(),
        forall|i: int| 0 <= i < bytes@.len() ==> r@[i] == (#[trigger] bytes@[i]) as char,
{
    String::from_utf8(bytes).unwrap()
}

fn alphabet_byte(i: usize) -> (b: u8)
    requires
        i < 73,
    ensures
        b == id_alphabet()[i as int],
        b < 128,
{
    let cs: Vec<u8> = vec![
        65u8, 66u8, 67u8, 68u8, 69u8, 70u8, 71u8, 72u8, 73u8, 74u8, 75u8, 76u8, 77u8,
        78u8, 79u8, 80u8, 81u8, 82u8, 83u8, 84u8, 85u8, 86u8, 87u8, 88u8, 89u8, 90u8,
        97u8, 98u8, 99u8, 100u8, 101u8, 102u8, 103u8, 104u8, 105u8, 106u8, 107u8, 108u8, 109u8,
        110u8, 111u8, 112u8, 113u8, 114u8, 115u8, 116u8, 117u8, 118u8, 119u8, 120u8, 121u8, 122u8,
        48u8, 49u8, 50u8, 51u8, 52u8, 53u8, 54u8, 55u8, 56u8, 57u8, 41u8, 40u8, 42u8,
        38u8, 94u8, 37u8, 36u8, 35u8, 64u8, 33u8, 126u8,
    ];
    proof {
        assert(cs@ =~= id_alphabet());
    }
    cs[i]
}

/// Generate a fresh 8-character identifier from the fixed alphabet.
pub fn random_id() -> (r: String)
    ensures
        is_generated_id(r@),
{
    let mut bytes: Vec<u8> = Vec::new();
    let mut i: usize = 0;
    while i < 8
        invariant
            i <= 8,
            bytes@.len() == i,
            forall|j: int|
                0 <= j < i ==> (#[trigger] bytes@[j]) < 128 && id_alphabet().contains(bytes@[j]),
        decreases 8 - i,
    {
        let idx = random_index(73);
        let b = alphabet_byte(idx);
        proof {
            assert(id_alphabet()[idx as int] == b);
            assert(id_alphabet().contains(b));
        }
        bytes.push(b);
        i += 1;
    }
    let r = string_from_ascii(bytes);
    proof {
        assert forall|j: int| 0 <= j < r@.len() implies (((#[trigger] r@[j]) as u32) < 128)
            && id_alphabet().contains(r@[j] as u8) by {
            assert(r@[j] == bytes@[j] as char);
            assert(bytes@[j] < 128);
        }
    }
    r
}

/// One native menu entry of the translated tree.
pub enum NativeEntry {
    Separator,
    Item { id: String, label: String, enabled: bool },
    Submenu { id: String, label: String, enabled: bool, children: Vec<NativeEntry> },
}

/// The translated top-level native menu.
pub struct MenuPlan {
    pub entries: Vec<NativeEntry>,
}

proof fn lemma_child_decreases(item: JsMenuItem, subs: Vec<JsMenuItem>, i: int)
    requires
        item.submenu == Some(subs),
        0 <= i < subs@.len(),
    ensures
        decreases_to!(item => subs@[i]),
{
    assert(decreases_to!(item => item.submenu->0));
    assert(decreases_to!(subs => subs@));
    assert(decreases_to!(subs@ => subs@[i]));
}

/// The identifier carried by a native entry: the description's own when
/// present, else a generated one.
pub open spec fn id_matches(id: Option<String>, out: Seq<char>) -> bool {
    match id {
        Some(s) => out == s@,
        None => is_generated_id(out),
    }
}

/// The native entry is the correct translation of the description node.
pub open spec fn entry_matches(item: JsMenuItem, e: NativeEntry) -> bool
    decreases item,
{
    if is_separator(item) {
        e is Separator
    } else if is_submenu(item) {
        &&& e matches NativeEntry::Submenu { id, label, enabled, children }
        &&& id_matches(item.id, id@)
        &&& label@ == spec_label(item)
        &&& enabled == spec_enabled(item)
        &&& match item.submenu {
            Some(subs) => entries_match(subs@, children@),
            None => children@.len() == 0,
        }
    } else {
        &&& e matches NativeEntry::Item { id, label, enabled }
        &&& id_matches(item.id, id@)
        &&& label@ == spec_label(item)
        &&& enabled == spec_enabled(item)
    }
}

/// Each native entry is the translation of the description at its position.
pub open spec fn entries_match(items: Seq<JsMenuItem>, es: Seq<NativeEntry>) -> bool
    decreases items,
{
    &&& es.len() == items.len()
    &&& forall|i: int| 0 <= i < items.len() ==> entry_matches(items[i], #[trigger] es[i])
}

/// Translate one description node into one native entry.
///
/// A separator ignores label, identifier and children; a submenu carries its
/// recursively translated children in order; any other kind is a clickable
/// leaf.  A missing identifier is replaced by a generated one.
pub fn to_native_item(item: &JsMenuItem) -> (e: NativeEntry)
    ensures
        entry_matches(*item, e),
    decreases *item,
{
    let enabled = match &item.enabled {
        Some(b) => *b,
        None => true,
    };
    if is_separator_item(item) {
        NativeEntry::Separator
    } else {
        let id = match &item.id {
            Some(s) => s.clone(),
            None => random_id(),
        };
        let label = match &item.label {
            Some(l) => l.clone(),
            None => String::new(),
        };
        if is_submenu_item(item) {
            let mut children: Vec<NativeEntry> = Vec::new();
            match &item.submenu {
                Some(subs) => {
                    let n = subs.len();
                    let mut i: usize = 0;
                    while i < n
                        invariant
                            i <= n,
                            n == subs@.len(),
                            item.submenu == Some(*subs),
                            children@.len() == i,
                            forall|j: int|
                                0 <= j < i ==> entry_matches(subs@[j], #[trigger] children@[j]),
                        decreases n - i,
                    {
                        proof {
                            lemma_child_decreases(*item, *subs, i as int);
                        }
                        let child = to_native_item(&subs[i]);
                        children.push(child);
                        i += 1;
                    }
                },
                None => {},
            }
            NativeEntry::Submenu { id, label, enabled, children }
        } else {
            NativeEntry::Item { id, label, enabled }
        }
    }
}

/// Translate the whole menu description in display order.
pub fn js_menu_to_tray_menu(js_menu: &JsMenu) -> (plan: MenuPlan)
    ensures
        entries_match(js_menu.items@, plan.entries@),
{
    let mut entries: Vec<NativeEntry> = Vec::new();
    let n = js_menu.items.len();
    let mut i: usize = 0;
    while i < n
        invariant
            i <= n,
            n == js_menu.items@.len(),
            entries@.len() == i,
            forall|j: int|
                0 <= j < i ==> entry_matches(js_menu.items@[j], #[trigger] entries@[j]),
        decreases n - i,
    {
        let e = to_native_item(&js_menu.items[i]);
        entries.push(e);
        i += 1;
    }
    MenuPlan { entries }
}

/// The single registry contribution of a node: its key bound to its
/// callback when it carries one, else nothing.
pub open spec fn own_map(item: JsMenuItem) -> Map<Seq<char>, u64> {
    match item.callback {
        Some(h) => Map::<Seq<char>, u64>::empty().insert(spec_key(item), h),
        None => Map::<Seq<char>, u64>::empty(),
    }
}

/// The registry contributions of the first `n` items, merged in order with
/// later entries winning.
pub open spec fn items_callbacks_prefix(items: Seq<JsMenuItem>, n: int) -> Map<Seq<char>, u64>
    decreases items, n,
{
    if n <= 0 || n > items.len() {
        Map::empty()
    } else {
        items_callbacks_prefix(items, n - 1).union_prefer_right(item_callbacks(items[n - 1]))
    }
}

/// The flat callback map of one node: its own contribution, then — for a
/// submenu — the contributions of its children, which win on duplicates.
pub open spec fn item_callbacks(item: JsMenuItem) -> Map<Seq<char>, u64>
    decreases item,
{
    if is_submenu(item) {
        match item.submenu {
            Some(subs) => own_map(item).union_prefer_right(
                items_callbacks_prefix(subs@, subs@.len() as int),
            ),
            None => own_map(item),
        }
    } else {
        own_map(item)
    }
}

/// The flat callback map of a whole menu description.
pub open spec fn items_callbacks(items: Seq<JsMenuItem>) -> Map<Seq<char>, u64> {
    items_callbacks_prefix(items, items.len() as int)
}

proof fn lemma_union_empty_right(m: Map<Seq<char>, u64>)
    ensures
        m.union_prefer_right(Map::empty()) == m,
{
    assert(m.union_prefer_right(Map::<Seq<char>, u64>::empty()) =~= m);
}

proof fn lemma_insert_as_union(m: Map<Seq<char>, u64>, k: Seq<char>, v: u64)
    ensures
        m.insert(k, v) == m.union_prefer_right(Map::<Seq<char>, u64>::empty().insert(k, v)),
{
    assert(m.insert(k, v) =~= m.union_prefer_right(
        Map::<Seq<char>, u64>::empty().insert(k, v),
    ));
}

proof fn lemma_union_assoc(a: Map<Seq<char>, u64>, b: Map<Seq<char>, u64>, c: Map<Seq<char>, u64>)
    ensures
        a.union_prefer_right(b).union_prefer_right(c) == a.union_prefer_right(
            b.union_prefer_right(c),
        ),
{
    assert(a.union_prefer_right(b).union_prefer_right(c) =~= a.union_prefer_right(
        b.union_prefer_right(c),
    ));
}

/// Merge one node's contributions (and, for a submenu, its children's) into
/// the registry, later entries overwriting earlier ones.
fn collect_item_callbacks(item: &JsMenuItem, reg: &mut CallbackRegistry)
    requires
        old(reg).wf(),
    ensures
        final(reg).wf(),
        final(reg)@ == old(reg)@.union_prefer_right(item_callbacks(*item)),
    decreases *item,
{
    match &item.callback {
        Some(h) => {
            let key = match &item.id {
                Some(s) => s.clone(),
                None => String::new(),
            };
            proof {
                lemma_insert_as_union(reg@, key@, *h);
            }
            reg.insert(key, *h);
        },
        None => {},
    }
    let ghost based = old(reg)@.union_prefer_right(own_map(*item));
    proof {
        if item.callback is None {
            lemma_union_empty_right(old(reg)@);
        }
        assert(reg@ == based);
    }
    if is_submenu_item(item) {
        match &item.submenu {
            Some(subs) => {
                let n = subs.len();
                let mut i: usize = 0;
                while i < n
                    invariant
                        i <= n,
                        n == subs@.len(),
                        item.submenu == Some(*subs),
                        reg.wf(),
                        reg@ == based.union_prefer_right(items_callbacks_prefix(subs@, i as int)),
                    decreases n - i,
                {
                    proof {
                        lemma_child_decreases(*item, *subs, i as int);
                    }
                    collect_item_callbacks(&subs[i], reg);
                    proof {
                        lemma_union_assoc(
                            based,
                            items_callbacks_prefix(subs@, i as int),
                            item_callbacks(subs@[i as int]),
                        );
                    }
                    i += 1;
                }
                proof {
                    lemma_union_assoc(
                        old(reg)@,
                        own_map(*item),
                        items_callbacks_prefix(subs@, n as int),
                    );
                }
            },
            None => {
                proof {
                    lemma_union_empty_right(based);
                }
            },
        }
    } else {
        proof {
            lemma_union_empty_right(based);
        }
    }
}

/// Build the flat identifier-to-callback registry for a whole menu
/// description, in traversal order with last-write-wins on duplicates.
pub fn get_callback_map_from_menu(menu: &JsMenu) -> (r: CallbackRegistry)
    ensures
        r.wf(),
        r@ == items_callbacks(menu.items@),
{
    let mut reg = CallbackRegistry::new();
    let n = menu.items.len();
    let mut i: usize = 0;
    while i < n
        invariant
            i <= n,
            n == menu.items@.len(),
            reg.wf(),
            reg@ == items_callbacks_prefix(menu.items@, i as int),
        decreases n - i,
    {
        let ghost before = reg@;
        collect_item_callbacks(&menu.items[i], &mut reg);
        proof {
            lemma_union_extends_prefix(menu.items@, i as int, before);
        }
        i += 1;
    }
    reg
}

/// The identifiers under which one node (and, for a submenu, its
/// descendants) register callbacks.
pub open spec fn callback_keys(item: JsMenuItem) -> Set<Seq<char>>
    decreases item,
{
    let own = if item.callback is Some {
        Set::<Seq<char>>::empty().insert(spec_key(item))
    } else {
        Set::<Seq<char>>::empty()
    };
    if is_submenu(item) {
        match item.submenu {
            Some(subs) => own.union(callback_keys_prefix(subs@, subs@.len() as int)),
            None => own,
        }
    } else {
        own
    }
}

/// The identifiers contributed by the first `n` items of a sequence.
pub open spec fn callback_keys_prefix(items: Seq<JsMenuItem>, n: int) -> Set<Seq<char>>
    decreases items, n,
{
    if n <= 0 || n > items.len() {
        Set::empty()
    } else {
        callback_keys_prefix(items, n - 1).union(callback_keys(items[n - 1]))
    }
}

/// The identifiers of all callback-bearing nodes of a menu description.
pub open spec fn menu_callback_keys(items: Seq<JsMenuItem>) -> Set<Seq<char>> {
    callback_keys_prefix(items, items.len() as int)
}

proof fn lemma_item_registry_keys(item: JsMenuItem)
    ensures
        item_callbacks(item).dom() =~= callback_keys(item),
    decreases item,
{
    if is_submenu(item) {
        match item.submenu {
            Some(subs) => {
                lemma_prefix_registry_keys(subs@, subs@.len() as int);
            },
            None => {},
        }
    }
}

proof fn lemma_prefix_registry_keys(items: Seq<JsMenuItem>, n: int)
    ensures
        items_callbacks_prefix(items, n).dom() =~= callback_keys_prefix(items, n),
    decreases items, n,
{
    if 0 < n <= items.len() {
        lemma_prefix_registry_keys(items, n - 1);
        lemma_item_registry_keys(items[n - 1]);
    }
}

/// Law: the callback registry built from a menu description holds exactly
/// one entry per distinct identifier among the tree's callback-bearing
/// nodes — duplicates are merged, the last occurrence in traversal order
/// winning.
pub proof fn lemma_registry_keys(items: Seq<JsMenuItem>)
    ensures
        items_callbacks(items).dom() =~= menu_callback_keys(items),
{
    lemma_prefix_registry_keys(items, items.len() as int);
}

/// Law: rebuilding the registry for a new menu description drops every
/// binding whose identifier no callback-bearing node of the new description
/// carries; dispatching such an identifier afterwards finds nothing.
pub proof fn lemma_replaced_registry_drops_stale(items: Seq<JsMenuItem>, stale: Seq<char>)
    requires
        !menu_callback_keys(items).contains(stale),
    ensures
        !items_callbacks(items).contains_key(stale),
{
    lemma_registry_keys(items);
}

proof fn lemma_union_extends_prefix(items: Seq<JsMenuItem>, i: int, before: Map<Seq<char>, u64>)
    requires
        0 <= i < items.len(),
        before == items_callbacks_prefix(items, i),
    ensures
        before.union_prefer_right(item_callbacks(items[i])) == items_callbacks_prefix(
            items,
            i + 1,
        ),
{
}

} // verus!
