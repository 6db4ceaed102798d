//! The tray icon's tooltip and menu follow the automation status.

use vstd::prelude::*;
use crate::text::text_eq;

verus! {

/// The tray icon's id.
pub const TRAY_ID: &'static str = "main";

/// The tooltip for a status reported by the automation.
pub open spec fn spec_tooltip(status: Seq<char>) -> Seq<char> {
    if status == "running"@ {
        "AutoCapcut — Đang render ▶"@
    } else if status == "stopping"@ {
        "AutoCapcut — Đang dừng ⏸"@
    } else if status == "error"@ {
        "AutoCapcut — Lỗi ❌"@
    } else {
        "AutoCapcut — Idle"@
    }
}

/// The tooltip for a status.
pub fn tray_tooltip(status: &str) -> (r: String)
    ensures
        r@ == spec_tooltip(status@),
{
    if text_eq(status, "running") {
        String::from_str("AutoCapcut — Đang render ▶")
    } else if text_eq(status, "stopping") {
        String::from_str("AutoCapcut — Đang dừng ⏸")
    } else if text_eq(status, "error") {
        String::from_str("AutoCapcut — Lỗi ❌")
    } else {
        String::from_str("AutoCapcut — Idle")
    }
}

/// The "Stop" menu item is enabled only while a batch runs.
pub fn stop_item_enabled(status: &str) -> (r: bool)
    ensures
        r == (status@ == "running"@),
{
    text_eq(status, "running")
}

} // verus!
