//! Verified core logic of the Ekphos Markdown workspace.
#![allow(unused_imports)]

pub mod blocks;
pub mod canvas_editor;
pub mod commands;
pub mod config;
pub mod content_layout;
pub mod content_scroll;
pub mod date;
pub mod details;
pub mod dialogs;
pub mod display;
pub mod document_view;
pub mod geometry;
pub mod image_cache;
pub mod keymap;
pub mod keys;
pub mod links;
pub mod markdown;
pub mod memory;
pub mod panel;
pub mod picker;
pub mod pointer;
pub mod session;
pub mod task_view;
pub mod tables;
pub mod tasks;
pub mod text;
pub mod theme;
pub mod theme_defaults;
pub mod theme_file;
pub mod version;
pub mod width;
pub mod wiki_autocomplete;
