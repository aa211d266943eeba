use systray::icon_parse::RgbaIcon;
use systray::menu_parse::{JsMenu, JsMenuItem};
use systray::registry::CallbackRegistry;
use systray::SystemTray;

fn cb_item(id: &str, handle: u64) -> JsMenuItem {
    JsMenuItem {
        id: Some(id.to_string()),
        label: Some(id.to_string()),
        kind: None,
        enabled: None,
        submenu: None,
        callback: Some(handle),
    }
}

#[test]
fn new_tray_starts_visible_and_empty() {
    let tray = SystemTray::new(None);
    assert!(tray.visible);
    assert!(tray.icon.is_none());
    assert!(tray.tooltip.is_none());
    assert!(tray.title.is_none());
    assert!(tray.menu.is_none());
    assert_eq!(tray.id(), None);
}

#[test]
fn tray_keeps_supplied_identifier() {
    let tray = SystemTray::new(Some("my-tray".to_string()));
    assert_eq!(tray.id(), Some("my-tray".to_string()));
}

#[test]
fn mutators_update_only_their_field() {
    let mut tray = SystemTray::new(None);
    tray.set_tooltip("tip".to_string());
    tray.set_title("title".to_string());
    tray.set_visible(false);
    tray.set_icon(RgbaIcon { data: vec![0, 0, 0, 255], width: 1, height: 1 });
    assert_eq!(tray.tooltip, Some("tip".to_string()));
    assert_eq!(tray.title, Some("title".to_string()));
    assert!(!tray.visible);
    let icon = tray.icon.as_ref().unwrap();
    assert_eq!((icon.width, icon.height), (1, 1));
    assert_eq!(icon.data, vec![0, 0, 0, 255]);
    assert!(tray.menu.is_none());
}

#[test]
fn set_menu_installs_translation_and_registry() {
    let mut tray = SystemTray::new(None);
    tray.set_menu(&JsMenu { items: vec![cb_item("one", 1), cb_item("two", 2)] });
    assert_eq!(tray.menu.as_ref().unwrap().entries.len(), 2);
    assert_eq!(tray.dispatch(&"one".to_string()), Some(1));
    assert_eq!(tray.dispatch(&"two".to_string()), Some(2));
    assert_eq!(tray.dispatch(&"three".to_string()), None);
}

#[test]
fn second_set_menu_replaces_registry_wholesale() {
    let mut tray = SystemTray::new(None);
    tray.set_menu(&JsMenu { items: vec![cb_item("first", 1)] });
    assert_eq!(tray.dispatch(&"first".to_string()), Some(1));
    tray.set_menu(&JsMenu { items: vec![cb_item("second", 2)] });
    // the identifier of the first description no longer resolves
    assert_eq!(tray.dispatch(&"first".to_string()), None);
    assert_eq!(tray.dispatch(&"second".to_string()), Some(2));
}

#[test]
fn registry_insert_overwrites_and_counts_distinct_keys() {
    let mut reg = CallbackRegistry::new();
    reg.insert("a".to_string(), 1);
    reg.insert("b".to_string(), 2);
    reg.insert("a".to_string(), 3);
    assert_eq!(reg.len(), 2);
    assert_eq!(reg.get(&"a".to_string()), Some(3));
    assert_eq!(reg.get(&"b".to_string()), Some(2));
    assert_eq!(reg.get(&"c".to_string()), None);
}

#[test]
fn registry_snapshot_is_independent() {
    let mut reg = CallbackRegistry::new();
    reg.insert("a".to_string(), 1);
    let snap = reg.snapshot();
    reg.insert("a".to_string(), 9);
    reg.insert("b".to_string(), 2);
    assert_eq!(snap.len(), 1);
    assert_eq!(snap.get(&"a".to_string()), Some(1));
    assert_eq!(snap.get(&"b".to_string()), None);
}

#[test]
fn dispatch_snapshot_matches_registry_at_snapshot_time() {
    let mut tray = SystemTray::new(None);
    tray.set_menu(&JsMenu { items: vec![cb_item("live", 5)] });
    let snap = tray.registry_snapshot();
    tray.set_menu(&JsMenu { items: vec![cb_item("other", 6)] });
    // the running loop's point-in-time copy still sees the old binding
    assert_eq!(snap.get(&"live".to_string()), Some(5));
    // the tray itself dispatches only from the new description
    assert_eq!(tray.dispatch(&"live".to_string()), None);
    assert_eq!(tray.dispatch(&"other".to_string()), Some(6));
}
