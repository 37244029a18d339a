//! A status-monitoring server: elements with an online state and attributes,
//! notifications about their changes, and the filters, routes and notification
//! rules of its default components.

pub mod strutil;
pub mod string_map;
pub mod state;


pub mod notification;
pub mod filters;
pub mod backend;
pub mod config;
pub mod frontend;
pub mod api_types;
pub mod websocket;
pub mod api;
pub mod history;
pub mod history_sqlite;
pub mod history_json;
pub mod auth;
pub mod cli;
pub mod email;
pub mod ntfy;
pub mod sockets;
pub mod tasks;
pub mod website;
pub mod dataminer;
pub mod minecraft;
pub mod names;
pub mod login_page;
pub mod registry;
pub mod duration;
