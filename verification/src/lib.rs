//! Capability negotiation and image lifecycle for an EGL-style display connection.

pub mod attributes;
pub mod capability;
pub mod dispatch;
pub mod display;
pub mod error;
pub mod image;
pub mod version;
