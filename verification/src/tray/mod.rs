//! Status notifier items and their D-Bus menus.
pub mod menu;
pub mod watcher;
pub mod item;
pub mod registry;
