//! Code generation behind `#[derive(Notifier)]`.

pub mod access;
pub mod attrs;
pub mod code;
pub mod error;
pub mod field;
pub mod filling;
pub mod grouping;
pub mod ident;
pub mod items;
pub mod literal;
pub mod meaning;
pub mod notifier;
pub mod opening;
pub mod places;
pub mod read;
pub mod reading;
pub mod senders;
pub mod service;
pub mod service_get;
pub mod slot;
pub mod syntax;
pub mod tables;
pub mod targets;
pub mod token;
