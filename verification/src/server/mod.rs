//! The server: its configuration, its clients, and what passes between them.

pub mod config;
pub mod encoding;
pub mod fragments;
pub mod icon;
pub mod network;
pub mod panel;
pub mod session;
pub mod startup;
pub mod stats;
