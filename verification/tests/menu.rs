use systray::menu_parse::{
    get_callback_map_from_menu, js_menu_to_tray_menu, random_id, to_native_item, JsMenu,
    JsMenuItem, NativeEntry,
};

const ALPHABET: &str = "ABCDEFGHIJKLMNOPQRSTUVWXYZabcdefghijklmnopqrstuvwxyz0123456789)(*&^%$#@!~";

fn leaf(
    id: Option<&str>,
    label: Option<&str>,
    kind: Option<&str>,
    enabled: Option<bool>,
    callback: Option<u64>,
) -> JsMenuItem {
    JsMenuItem {
        id: id.map(|s| s.to_string()),
        label: label.map(|s| s.to_string()),
        kind: kind.map(|s| s.to_string()),
        enabled,
        submenu: None,
        callback,
    }
}

#[test]
fn generated_id_has_length_eight_from_alphabet() {
    let id = random_id();
    assert_eq!(id.chars().count(), 8);
    assert!(id.chars().all(|c| ALPHABET.contains(c)));
}

#[test]
fn generated_ids_differ_between_calls() {
    let a = random_id();
    let b = random_id();
    assert_ne!(a, b);
}

#[test]
fn anonymous_item_gets_generated_id() {
    let item = leaf(None, Some("hi"), None, None, None);
    match to_native_item(&item) {
        NativeEntry::Item { id, label, enabled } => {
            assert_eq!(id.chars().count(), 8);
            assert!(id.chars().all(|c| ALPHABET.contains(c)));
            assert_eq!(label, "hi");
            assert!(enabled);
        }
        _ => panic!("expected a leaf item"),
    }
}

#[test]
fn two_anonymous_translations_get_different_ids() {
    let item = leaf(None, Some("hi"), None, None, None);
    let first = match to_native_item(&item) {
        NativeEntry::Item { id, .. } => id,
        _ => panic!("expected a leaf item"),
    };
    let second = match to_native_item(&item) {
        NativeEntry::Item { id, .. } => id,
        _ => panic!("expected a leaf item"),
    };
    assert_ne!(first, second);
}

#[test]
fn item_keeps_supplied_id_label_and_enabled() {
    let item = leaf(Some("open"), Some("Open"), Some("normal"), Some(false), None);
    match to_native_item(&item) {
        NativeEntry::Item { id, label, enabled } => {
            assert_eq!(id, "open");
            assert_eq!(label, "Open");
            assert!(!enabled);
        }
        _ => panic!("expected a leaf item"),
    }
}

#[test]
fn separator_with_label_and_callback_is_pure_divider() {
    let item = leaf(Some("sep"), Some("not shown"), Some("separator"), Some(false), Some(9));
    let e = to_native_item(&item);
    assert!(matches!(e, NativeEntry::Separator));
}

#[test]
fn empty_submenu_translates_to_valid_empty_container() {
    let mut item = leaf(Some("sub"), Some("More"), Some("submenu"), None, None);
    item.submenu = Some(Vec::new());
    match to_native_item(&item) {
        NativeEntry::Submenu { id, label, enabled, children } => {
            assert_eq!(id, "sub");
            assert_eq!(label, "More");
            assert!(enabled);
            assert!(children.is_empty());
        }
        _ => panic!("expected a submenu"),
    }
}

#[test]
fn submenu_children_are_translated_in_order() {
    let mut item = leaf(None, Some("More"), Some("submenu"), None, None);
    item.submenu = Some(vec![
        leaf(Some("a"), Some("A"), None, None, None),
        leaf(None, None, Some("separator"), None, None),
        leaf(Some("b"), Some("B"), None, Some(false), None),
    ]);
    match to_native_item(&item) {
        NativeEntry::Submenu { children, .. } => {
            assert_eq!(children.len(), 3);
            assert!(matches!(&children[0], NativeEntry::Item { id, .. } if id == "a"));
            assert!(matches!(&children[1], NativeEntry::Separator));
            assert!(
                matches!(&children[2], NativeEntry::Item { id, enabled, .. } if id == "b" && !enabled)
            );
        }
        _ => panic!("expected a submenu"),
    }
}

#[test]
fn whole_menu_translates_in_display_order() {
    let menu = JsMenu {
        items: vec![
            leaf(Some("one"), Some("One"), None, None, None),
            leaf(None, None, Some("separator"), None, None),
        ],
    };
    let plan = js_menu_to_tray_menu(&menu);
    assert_eq!(plan.entries.len(), 2);
    assert!(matches!(&plan.entries[0], NativeEntry::Item { id, .. } if id == "one"));
    assert!(matches!(&plan.entries[1], NativeEntry::Separator));
}

#[test]
fn registry_counts_one_entry_per_distinct_identifier() {
    let mut sub = leaf(Some("menu"), Some("More"), Some("submenu"), None, None);
    sub.submenu = Some(vec![leaf(Some("a"), None, None, None, Some(3))]);
    let menu = JsMenu {
        items: vec![
            leaf(Some("a"), None, None, None, Some(1)),
            leaf(Some("b"), None, None, None, Some(2)),
            sub,
            leaf(None, None, None, None, Some(4)),
        ],
    };
    let reg = get_callback_map_from_menu(&menu);
    // four callback-bearing nodes, three distinct keys: "a", "b", ""
    assert_eq!(reg.len(), 3);
    // the later "a" under the submenu wins
    assert_eq!(reg.get(&"a".to_string()), Some(3));
    assert_eq!(reg.get(&"b".to_string()), Some(2));
    assert_eq!(reg.get(&"".to_string()), Some(4));
}

#[test]
fn node_without_callback_contributes_nothing() {
    let menu = JsMenu {
        items: vec![leaf(Some("quiet"), Some("Quiet"), None, None, None)],
    };
    let reg = get_callback_map_from_menu(&menu);
    assert_eq!(reg.len(), 0);
    assert_eq!(reg.get(&"quiet".to_string()), None);
}

#[test]
fn children_of_non_submenu_kind_are_not_recursed() {
    let mut item = leaf(Some("plain"), None, None, None, None);
    item.submenu = Some(vec![leaf(Some("hidden"), None, None, None, Some(7))]);
    let menu = JsMenu { items: vec![item] };
    let reg = get_callback_map_from_menu(&menu);
    assert_eq!(reg.len(), 0);
    assert_eq!(reg.get(&"hidden".to_string()), None);
}
