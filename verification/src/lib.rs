//! machina: the verified core of a keyboard-driven file manager.

pub mod text;
pub mod sort;
pub mod folder;
pub mod paths;
pub mod git;
pub mod keybind;
pub mod input;
pub mod undo;
pub mod du_view;
pub mod trash_view;
pub mod shell;
pub mod icons;
pub mod archive;
pub mod config;
pub mod app;
pub mod ops;
pub mod opener;
pub mod kgp;
pub mod bulk_rename;
pub mod dir_size;
pub mod keys;
pub mod view;
pub mod preview;
pub mod highlight;
pub mod watch;
pub mod theme;
