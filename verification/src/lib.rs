//! A todo-card service core: the record codec between wire cards and
//! stored items, credential shape validation, the signed session token
//! service, the session guard, and the card service, each with
//! machine-checked contracts. Storage and transport stay outside; every
//! decision they surround is a function in here over plain values.
pub mod auth;
pub mod clock;
pub mod ids;
pub mod model;
pub mod service;
pub mod store;
pub mod token;
pub mod validation;

pub use ids::Uid;
