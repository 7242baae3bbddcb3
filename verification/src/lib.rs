//! Verified decision logic of the Boundless tray companion.

pub mod actions;
pub mod arrange;
pub mod batch;
pub mod broker;
pub mod clipboard;
pub mod dashboard;
pub mod dashboard_laws;
pub mod delivery;
pub mod elevated;
pub mod files;
pub mod grid;
pub mod icon;
pub mod injected;
pub mod input;
pub mod input_laws;
pub mod layout;
pub mod layout_laws;
pub mod maps;
pub mod order;
pub mod pairing;
pub mod pairing_laws;
pub mod safety;
pub mod service;
pub mod session;
pub mod settings;
pub mod startup;
pub mod status;
pub mod tasks;
pub mod testing;
pub mod text;
pub mod text_laws;
pub mod toasts;
pub mod transfers;
pub mod ui;
pub mod watch;
pub mod written;
