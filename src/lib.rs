//! Enumeration of unlock codes for a storage-decryption probe, and the
//! decisions that drive one probe after another.

pub mod config;
pub mod geometry;
pub mod phrase;
pub mod generator;
pub mod driver;
pub mod render;
