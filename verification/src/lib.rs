//! Verified core of the Mallet map editor: persistent identifiers and their
//! byte encodings, content checksums, the map history tree, map state
//! snapshots and their restoration, media bookkeeping, selection targets and
//! input bindings.

pub mod bytes;
pub mod checksum;
pub mod id;
pub mod idmap;
pub mod history;
pub mod state;
pub mod commit;
pub mod lookup;
pub mod restore;
pub mod media;
pub mod selection;
pub mod modes;
pub mod core_binds;
pub mod input_binding;
pub mod keybinds;
pub mod keys;
pub mod elements;
pub mod store_keys;
