//! Decision logic for a counter watcher: a store of named credential presets,
//! the operator menu that resolves one credential pair from it, and the
//! monitor that turns successive counter readings into device signals.

pub mod counter;
pub mod menu;
pub mod monitor;
pub mod startup;
pub mod store;
pub mod text;
