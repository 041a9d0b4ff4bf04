//! Verified core of the Wyrd shell: the state, parsing and decision logic of
//! its daemons and bar modules, kept apart from the I/O that drives them.

pub mod text;
pub mod number;
pub mod json;
pub mod clipboard;
pub mod notifications;
pub mod tray;
pub mod network;
pub mod audio;
pub mod sdk;
pub mod brightness;
pub mod keyboard;
pub mod audio_widget;
pub mod launcher;
pub mod battery;
pub mod bluetooth;
pub mod clock;
pub mod dnd;
pub mod window;
pub mod system;
pub mod notification_center;
pub mod clipboard_widget;
pub mod media;
pub mod dynamic_color;
pub mod workspaces;
pub mod power_menu;
pub mod network_scan;
