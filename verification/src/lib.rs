//! Verified core of the CapCut batch-render assistant: license handling,
//! draft synchronisation, configuration checks and the automation state.

pub mod text;
pub mod sync;
pub mod draft_json;
pub mod license;
pub mod automation;
pub mod validation;
pub mod config;
pub mod detect;
pub mod notification;
pub mod tray;
