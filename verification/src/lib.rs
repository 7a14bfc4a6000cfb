//! Verified core of a terminal companion for Android app development:
//! parsers for `adb` output, logcat and network-event decoding, and the
//! state machines behind each panel.

pub mod order;
pub mod text;
pub mod theme;
pub mod adb;
pub mod anrs;
pub mod app;
pub mod dropbox;
pub mod events;
pub mod files;
pub mod grid;
pub mod apps;
pub mod battery;
pub mod boot;
pub mod clock;
pub mod command_palette;
pub mod commands;
pub mod crashes;
pub mod database;
pub mod db_fetch;
pub mod dispatch;
pub mod issues;
pub mod keys;
pub mod logcat;
pub mod logcat_state;
pub mod memory;
pub mod monitor;
pub mod names;
pub mod network;
pub mod panel;
pub mod permissions;
pub mod selector;
pub mod session;
pub mod sessions;
pub mod toolbar;
pub mod trace;
pub mod units;
