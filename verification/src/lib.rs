//! Management of Windows File Explorer context-menu extensions: the
//! registry-snapshot tree with its safety-scoped mutation plans, the
//! typed-value codec and REG-file rendering, the scene allow-list that
//! gates every write and delete, the append-only backup of discovered
//! menu items, and the blocked-class set of the packaged menu.
//!
//! Registry effects are compiled into plans of primitive operations; a
//! front end applies them to the live system, and an in-memory store
//! with the same semantics gives them meaning here.
pub mod backup;
pub mod blocklist;
pub mod blocks;
pub mod catalog;
pub mod guid;
pub mod regtext;
pub mod scene;
pub mod store;
pub mod strutil;
pub mod style;
pub mod tree;
pub mod utf16;
pub mod value;
pub mod win11;
