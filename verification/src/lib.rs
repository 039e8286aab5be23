//! Verified core of ctrlr, a command-history picker.
pub mod text;
pub mod hash;
pub mod text_input;
pub mod editor;
pub mod paths;
pub mod shells;
pub mod cli;
pub mod init;
pub mod history;
pub mod state;
pub mod keymap;
pub mod keybind;
pub mod config;
pub mod layout;
pub mod storage;
pub mod theme;
pub mod clipboard;
pub mod help;
pub mod picker;
pub mod migrate;
pub mod details;
pub mod tag_editor;
pub mod collection_dialog;
pub mod import_dialog;
pub mod import_plan;
