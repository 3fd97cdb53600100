//! The decisions of the Minutes desktop application: finding out that a call
//! is going on, capturing it natively, and running the tray and the menus.
//!
//! Everything here is a function from plain values to plain values. Reading
//! processes and devices, talking to windows and waiting are left to the
//! program around it, which hands in what it saw and does what it is told.

pub mod any_mic_app;
pub mod browser_scan;
pub mod browsers;
pub mod calendar;
pub mod capture;
pub mod config;
pub mod countdown;
pub mod deadlines;
pub mod detector;
pub mod families;
pub mod helper_log;
pub mod helper_messages;
pub mod meeting_prompts;
pub mod meeting_urls;
pub mod menu_bar;
pub mod mic_check;
pub mod microphone;
pub mod native_apps;
pub mod notifications;
pub mod poll;
pub mod processes;
pub mod startup;
pub mod text;
pub mod tray;
pub mod tray_menu;
pub mod updates;
pub mod watcher;
pub mod windows;
