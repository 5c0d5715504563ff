//! Request handling for a small user-record service.

pub mod config;
pub mod decimal;
pub mod handlers;
pub mod history;
pub mod reply;
pub mod startup;
pub mod store;
pub mod user;
