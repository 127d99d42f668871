//! Ticket workflow engine for conference operations: form schemas with
//! conditional fields and bound defaults, review gates, and the per-ticket
//! flow of steps, all as functions on plain values with verified contracts.

pub mod detail;
pub mod error;
pub mod export;
pub mod fields;
pub mod forms;
pub mod json;
pub mod mime;
pub mod overview;
pub mod process;
pub mod session;
pub mod target;
pub mod text;
pub mod ticket;
pub mod views;
pub mod workflow;
