//! The client interface: what clients send and what they are told.
pub mod calls;
pub mod conversions;
pub mod proto;
pub mod reports;
pub mod service;
pub mod status;
pub mod translation_laws;
