//! The logic of a couch-friendly game launcher: what the library screen shows, what each
//! press of a button does, what is downloaded, launched and updated, and how.
//!
//! Everything here works on plain values. Reading files, talking to the network, drawing
//! and threads are the business of the program around it.
pub mod app;
pub mod assign;
pub mod backend;
pub mod battery;
pub mod broth;
pub mod butlerd;
pub mod device_info;
pub mod gamepad;
pub mod glyphs;
pub mod handoff;
pub mod host;
pub mod images;
pub mod lists;
pub mod login;
pub mod model;
pub mod moment;
pub mod muos;
pub mod order;
pub mod paths;
pub mod picture;
pub mod qr;
pub mod rows;
pub mod self_update;
pub mod size;
pub mod table;
pub mod text;
pub mod touch;
pub mod ui;
