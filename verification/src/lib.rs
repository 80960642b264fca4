//! Verified core of the DeployKeys desktop interface: the state machines,
//! filters, formatting and text rules behind every screen, independent of the
//! browser and of the reactive runtime that hosts them.

pub mod text;
pub mod listing;
pub mod page_size;
pub mod progress;
pub mod toast;
pub mod api;
pub mod connection;
pub mod i18n;
pub mod icons;
pub mod theme;
pub mod shell;
pub mod calendar;
pub mod pagination;
pub mod repos;
pub mod keys;
pub mod connect;
pub mod palette;
