//! Nested record types of the response model.

pub mod media;
