//! Core of a terminal network diagnostics tool.

pub mod app;
pub mod control;
pub mod dsl;
pub mod engine;
pub mod footer;
pub mod history;
pub mod input;
pub mod keys;
pub mod lookup;
pub mod measure;
pub mod modem;
pub mod modem_view;
pub mod monitor;
pub mod monitor_view;
pub mod net;
pub mod panels;
pub mod poller;
pub mod records_view;
pub mod route;
pub mod session;
pub mod soap;
pub mod style;
pub mod text;
pub mod tick;
