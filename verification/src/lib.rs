//! Verified core of a desktop system-tray adapter.
//!
//! The crate models a single tray icon with a tooltip, a title, a visibility
//! flag, an icon bitmap and a hierarchical context menu.  A caller-supplied
//! menu description is translated into a tree of native menu entries, and a
//! flat registry maps menu-item identifiers to callback handles so that menu
//! click events can be dispatched.  Icon sources given as base64 data URLs
//! are decoded into raw RGBA pixel buffers.

use vstd::prelude::*;

pub mod icon_parse;
pub mod menu_parse;
pub mod registry;

verus! {

use crate::icon_parse::RgbaIcon;
use crate::menu_parse::{JsMenu, MenuPlan, entries_match, items_callbacks};
use crate::registry::CallbackRegistry;

/// The single tray icon's state: its identifier, icon bitmap, tooltip,
/// title, visibility flag, installed menu and callback registry.
///
/// This is the declarative state the native handle is driven from; the
/// caller installs each change natively after mutating it here.  The
/// registry and the installed menu always stem from the same description:
/// `set_menu` replaces both in one step.
pub struct SystemTray {
    /// The identifier attached at creation; the platform assigns one when
    /// absent.
    pub tray_id: Option<String>,
    /// The currently installed icon pixels, once one was set.
    pub icon: Option<RgbaIcon>,
    pub tooltip: Option<String>,
    pub title: Option<String>,
    pub visible: bool,
    /// The translation of the current menu description.
    pub menu: Option<MenuPlan>,
    /// The identifier-to-callback bindings of the current menu description.
    pub registry: CallbackRegistry,
}

impl SystemTray {
    /// The registry holds each identifier at most once.
    pub open spec fn wf(&self) -> bool {
        self.registry.wf()
    }

    /// A fresh tray: visible, with no icon, texts, menu or callbacks.
    pub fn new(id: Option<String>) -> (t: Self)
        ensures
            t.wf(),
            t.tray_id == id,
            t.icon is None,
            t.tooltip is None,
            t.title is None,
            t.visible == true,
            t.menu is None,
            t.registry@ == Map::<Seq<char>, u64>::empty(),
    {
        SystemTray {
            tray_id: id,
            icon: None,
            tooltip: None,
            title: None,
            visible: true,
            menu: None,
            registry: CallbackRegistry::new(),
        }
    }

    /// The identifier given at creation, when one was.
    pub fn id(&self) -> (r: Option<String>)
        ensures
            r == self.tray_id,
    {
        match &self.tray_id {
            Some(s) => Some(s.clone()),
            None => None,
        }
    }

    /// Install decoded icon pixels; everything else is unchanged.
    pub fn set_icon(&mut self, icon: RgbaIcon)
        ensures
            final(self).icon == Some(icon),
            final(self).tray_id == old(self).tray_id,
            final(self).tooltip == old(self).tooltip,
            final(self).title == old(self).title,
            final(self).visible == old(self).visible,
            final(self).menu == old(self).menu,
            final(self).registry == old(self).registry,
    {
        self.icon = Some(icon);
    }

    /// Set the tooltip text; everything else is unchanged.
    pub fn set_tooltip(&mut self, tooltip: String)
        ensures
            final(self).tooltip == Some(tooltip),
            final(self).tray_id == old(self).tray_id,
            final(self).icon == old(self).icon,
            final(self).title == old(self).title,
            final(self).visible == old(self).visible,
            final(self).menu == old(self).menu,
            final(self).registry == old(self).registry,
    {
        self.tooltip = Some(tooltip);
    }

    /// Set the title text; everything else is unchanged.
    pub fn set_title(&mut self, title: String)
        ensures
            final(self).title == Some(title),
            final(self).tray_id == old(self).tray_id,
            final(self).icon == old(self).icon,
            final(self).tooltip == old(self).tooltip,
            final(self).visible == old(self).visible,
            final(self).menu == old(self).menu,
            final(self).registry == old(self).registry,
    {
        self.title = Some(title);
    }

    /// Set the visibility flag; everything else is unchanged.
    pub fn set_visible(&mut self, visible: bool)
        ensures
            final(self).visible == visible,
            final(self).tray_id == old(self).tray_id,
            final(self).icon == old(self).icon,
            final(self).tooltip == old(self).tooltip,
            final(self).title == old(self).title,
            final(self).menu == old(self).menu,
            final(self).registry == old(self).registry,
    {
        self.visible = visible;
    }

    /// Replace the menu: rebuild the callback registry from the new
    /// description and install its translation, as one unit.  The previous
    /// registry is discarded wholesale, never merged into.
    pub fn set_menu(&mut self, menu: &JsMenu)
        ensures
            final(self).wf(),
            final(self).registry@ == items_callbacks(menu.items@),
            final(self).menu matches Some(p) && entries_match(menu.items@, p.entries@),
            final(self).tray_id == old(self).tray_id,
            final(self).icon == old(self).icon,
            final(self).tooltip == old(self).tooltip,
            final(self).title == old(self).title,
            final(self).visible == old(self).visible,
    {
        self.registry = crate::menu_parse::get_callback_map_from_menu(menu);
        self.menu = Some(crate::menu_parse::js_menu_to_tray_menu(menu));
    }

    /// The dispatch decision for a menu click event: the callback handle
    /// registered under the event's identifier, or nothing.
    pub fn dispatch(&self, event_id: &String) -> (r: Option<u64>)
        requires
            self.wf(),
        ensures
            match r {
                Some(h) => self.registry@.contains_key(event_id@) && self.registry@[event_id@]
                    == h,
                None => !self.registry@.contains_key(event_id@),
            },
    {
        self.registry.get(event_id)
    }

    /// The point-in-time copy of the registry the event loop dispatches
    /// from once it has started.
    pub fn registry_snapshot(&self) -> (r: CallbackRegistry)
        requires
            self.wf(),
        ensures
            r.wf(),
            r@ == self.registry@,
    {
        self.registry.snapshot()
    }
}

} // verus!
