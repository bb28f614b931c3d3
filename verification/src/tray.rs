//! The tray menu: what it holds, and what a click on it does. All labels come from the
//! front end, which owns the translations; the menu is rebuilt whole on every change of
//! state, so it cannot drift from the window. Drawing it is the caller's part.

use vstd::prelude::*;
use crate::text::same_text;

verus! {

/// The tray icon's id.
pub const TRAY_ID: &'static str = "main";

/// Menu clicks that are not `show`/`quit` are forwarded on this channel for the UI to act on.
pub const ACTION_EVENT: &'static str = "tray://action";

/// One subtitle mode in the tray's submenu.
pub struct TrayMode {
    pub id: String,
    pub label: String,
    pub on: bool,
}

/// Everything the tray menu shows, as the front end resolved it.
pub struct TrayState {
    pub tooltip: String,
    pub show_label: String,
    /// Already resolved to "Start" or "Stop" by the caller.
    pub run_label: String,
    pub overlay_label: String,
    pub overlay_on: bool,
    pub click_through_label: String,
    pub click_through_on: bool,
    pub mode_label: String,
    pub modes: Vec<TrayMode>,
    pub quit_label: String,
}

/// A checkable menu item.
pub struct CheckItem {
    pub id: String,
    pub label: String,
    pub on: bool,
}

impl View for CheckItem {
    type V = (Seq<char>, Seq<char>, bool);

    open spec fn view(&self) -> (Seq<char>, Seq<char>, bool) {
        (self.id@, self.label@, self.on)
    }
}

/// One entry of the tray menu.
pub enum MenuEntry {
    /// A plain item: its id and label.
    Item(String, String),
    /// A checkable item.
    Check(CheckItem),
    /// A submenu of checkable items, under a label.
    Submenu(String, Vec<CheckItem>),
    Separator,
}

/// The id of the menu item of a subtitle mode.
pub open spec fn mode_item(id: Seq<char>) -> Seq<char> {
    "mode:"@ + id
}

/// The id of the menu item of the subtitle mode `id`.
pub fn mode_item_id(id: &str) -> (r: String)
    ensures
        r@ == mode_item(id@),
{
    let mut r = String::from_str("mode:");
    r.append(id);
    r
}

/// Whether a menu entry is the plain item `id` labelled `label`.
pub open spec fn is_item(e: MenuEntry, id: Seq<char>, label: Seq<char>) -> bool {
    e matches MenuEntry::Item(i, l) && i@ == id && l@ == label
}

/// Whether a menu entry is the checkable item `id` labelled `label`, checked as `on`.
pub open spec fn is_check(e: MenuEntry, id: Seq<char>, label: Seq<char>, on: bool) -> bool {
    e matches MenuEntry::Check(c) && c@ == (id, label, on)
}

/// Whether `items` are the mode items for `modes`: one per mode, in order.
pub open spec fn are_mode_items(items: Seq<CheckItem>, modes: Seq<TrayMode>) -> bool {
    &&& items.len() == modes.len()
    &&& forall|i: int|
        0 <= i < modes.len() ==> #[trigger] items[i]@ == (
            mode_item(modes[i].id@),
            modes[i].label@,
            modes[i].on,
        )
}

/// The tray menu for a state: show the window; a separator; start or stop; the overlay
/// switch; the click-through switch; the submenu of subtitle modes; a separator; quit.
pub fn menu_layout(s: &TrayState) -> (r: Vec<MenuEntry>)
    ensures
        r@.len() == 8,
        is_item(r@[0], "show"@, s.show_label@),
        r@[1] is Separator,
        is_item(r@[2], "run"@, s.run_label@),
        is_check(r@[3], "overlay"@, s.overlay_label@, s.overlay_on),
        is_check(r@[4], "click-through"@, s.click_through_label@, s.click_through_on),
        r@[5] matches MenuEntry::Submenu(l, items) && l@ == s.mode_label@ && are_mode_items(
            items@,
            s.modes@,
        ),
        r@[6] is Separator,
        is_item(r@[7], "quit"@, s.quit_label@),
{
    let mut modes: Vec<CheckItem> = Vec::new();
    let mut i: usize = 0;
    while i < s.modes.len()
        invariant
            i <= s.modes.len(),
            modes@.len() == i,
            forall|j: int|
                0 <= j < i ==> #[trigger] modes@[j]@ == (
                    mode_item(s.modes@[j].id@),
                    s.modes@[j].label@,
                    s.modes@[j].on,
                ),
        decreases s.modes.len() - i,
    {
        let m = &s.modes[i];
        modes.push(CheckItem { id: mode_item_id(m.id.as_str()), label: m.label.clone(), on: m.on });
        i = i + 1;
    }
    let mut r: Vec<MenuEntry> = Vec::new();
    r.push(MenuEntry::Item(String::from_str("show"), s.show_label.clone()));
    r.push(MenuEntry::Separator);
    r.push(MenuEntry::Item(String::from_str("run"), s.run_label.clone()));
    r.push(
        MenuEntry::Check(
            CheckItem {
                id: String::from_str("overlay"),
                label: s.overlay_label.clone(),
                on: s.overlay_on,
            },
        ),
    );
    r.push(
        MenuEntry::Check(
            CheckItem {
                id: String::from_str("click-through"),
                label: s.click_through_label.clone(),
                on: s.click_through_on,
            },
        ),
    );
    r.push(MenuEntry::Submenu(s.mode_label.clone(), modes));
    r.push(MenuEntry::Separator);
    r.push(MenuEntry::Item(String::from_str("quit"), s.quit_label.clone()));
    r
}

/// What a click on a menu item does.
pub enum MenuAction {
    /// Bring the main window back.
    ShowWindow,
    /// End the app.
    Quit,
    /// Hand the item's id to the UI.
    Forward(String),
}

/// What a click on the menu item `id` does: `show` and `quit` are handled by the tray
/// itself; every other item is the UI's to act on.
pub fn menu_action(id: &str) -> (r: MenuAction)
    ensures
        id@ == "show"@ ==> r is ShowWindow,
        id@ == "quit"@ ==> r is Quit,
        id@ != "show"@ && id@ != "quit"@ ==> (r matches MenuAction::Forward(f) && f@ == id@),
{
    proof {
        reveal_strlit("show");
        reveal_strlit("quit");
        assert("show"@[0] != "quit"@[0]);
    }
    if same_text(id, "show") {
        MenuAction::ShowWindow
    } else if same_text(id, "quit") {
        MenuAction::Quit
    } else {
        MenuAction::Forward(String::from_str(id))
    }
}

/// Whether a click on the tray icon opens the window: a left click, on release. The menu
/// is right-click only.
pub fn click_shows_window(left_button: bool, released: bool) -> (r: bool)
    ensures
        r == (left_button && released),
{
    left_button && released
}

} // verus!
