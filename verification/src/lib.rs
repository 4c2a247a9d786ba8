//! PaperDock asks questions about the papers in a Zotero library. This library holds
//! the decisions that the app and its window make; the app itself reads, writes and
//! shows.

pub mod ask;
pub mod config;
pub mod json;
pub mod links;
pub mod lookup;
pub mod paths;
pub mod picker;
pub mod progress;
pub mod reference;
pub mod session;
pub mod setup;
pub mod show;
pub mod sidecar;
pub mod text;
pub mod thread;
pub mod zotero;
