use vstd::prelude::*;
use crate::messages::{ID_MENU_AUTOSTART, ID_MENU_EXIT};

verus! {

/// Menu item flags (`MENU_ITEM_FLAGS`).
pub const MF_STRING: u32 = 0x0;
pub const MF_UNCHECKED: u32 = 0x0;
pub const MF_CHECKED: u32 = 0x8;
pub const MF_SEPARATOR: u32 = 0x800;

/// Room for the tray tooltip, in UTF-16 units (`NOTIFYICONDATAW::szTip`).
pub const TIP_CAPACITY: usize = 128;

/// One entry of the tray icon's context menu.
#[derive(Debug)]
pub struct MenuItem {
    pub id: u32,
    pub flags: u32,
    /// The label; a separator has none.
    pub text: Option<String>,
}

/// The flags of the "Start with Windows" entry: checked when it is on.
pub open spec fn autostart_flags(autostart_enabled: bool) -> u32 {
    if autostart_enabled {
        MF_CHECKED | MF_STRING
    } else {
        MF_UNCHECKED | MF_STRING
    }
}

/// The "Start with Windows" entry is a checked string item (flag 0x8) when
/// autostart is on and a plain, unchecked one (no flags) when it is off.
pub proof fn lemma_autostart_entry_checked_when_on(autostart_enabled: bool)
    ensures
        autostart_flags(autostart_enabled) == if autostart_enabled { 0x8u32 } else { 0u32 },
{
    assert(0x8u32 | 0x0u32 == 0x8u32) by (bit_vector);
    assert(0x0u32 | 0x0u32 == 0x0u32) by (bit_vector);
}

/// The tray icon's context menu: "Start with Windows" (checked when on), a
/// separator, then "Exit".
pub fn context_menu_items(autostart_enabled: bool) -> (items: Vec<MenuItem>)
    ensures
        items.len() == 3,
        items[0].id == ID_MENU_AUTOSTART,
        items[0].flags == autostart_flags(autostart_enabled),
        items[0].text matches Some(t) && t@ == "Start with Windows"@,
        items[1].id == 0 && items[1].flags == MF_SEPARATOR && items[1].text is None,
        items[2].id == ID_MENU_EXIT,
        items[2].flags == MF_STRING,
        items[2].text matches Some(t) && t@ == "Exit"@,
{
    let flags = if autostart_enabled {
        MF_CHECKED | MF_STRING
    } else {
        MF_UNCHECKED | MF_STRING
    };
    let mut items: Vec<MenuItem> = Vec::new();
    items.push(MenuItem { id: ID_MENU_AUTOSTART, flags, text: Some("Start with Windows".to_owned()) });
    items.push(MenuItem { id: 0, flags: MF_SEPARATOR, text: None });
    items.push(MenuItem { id: ID_MENU_EXIT, flags: MF_STRING, text: Some("Exit".to_owned()) });
    items
}

/// The part of a tooltip that fits in `capacity` units: the whole text, or
/// its first `capacity` units.
pub fn fit_tooltip(text: &[u16], capacity: usize) -> (r: Vec<u16>)
    ensures
        r@ == text@.take(if text@.len() < capacity { text@.len() as int } else { capacity as int }),
{
    let n = if text.len() < capacity { text.len() } else { capacity };
    let mut r: Vec<u16> = Vec::new();
    let mut i: usize = 0;
    while i < n
        invariant
            n <= text.len(),
            i <= n,
            r@ == text@.take(i as int),
        decreases n - i,
    {
        r.push(text[i]);
        i = i + 1;
        assert(r@ =~= text@.take(i as int));
    }
    r
}

} // verus!
