//! Where the configuration lives in the coordination service.
pub mod register;
