//! Verified core of a window manager for webview applications: the registry of
//! windows, the event listener registry, one-time salts, the scripts injected
//! into each webview, the resolution of asset requests and the preparation of
//! pending windows.
#![allow(unused_imports)]

pub mod ids;
pub mod text;
pub mod error;
pub mod protocol;
pub mod json;
pub mod scripts;
pub mod urls;
pub mod events;
pub mod listeners;
pub mod windows;
pub mod menu;
pub mod manager;
