//! Codexline: a terminal companion status line for the official Codex CLI.
//!
//! The verified core holds the configuration schema and its rules, the HUD
//! layout and rendering engine, the keyboard-driven configuration editor, the
//! hook and app-server event reducers, and the launch decisions.

pub mod text;
pub mod config;
pub mod state;
pub mod number;
pub mod segments;
pub mod layout;
pub mod theme;
pub mod rows;
pub mod panel;
pub mod render;
pub mod hud;
pub mod json;
pub mod events;
pub mod app_server;
pub mod config_ui;
pub mod codex_toml;
pub mod native_status;
pub mod process;
pub mod cli;
pub mod sources;
pub mod shim;
