//! The HTTP interface: what requests ask for and what they are answered.

pub mod containers;
pub mod error;
pub mod images;
pub mod models;
pub mod networks;
pub mod server;
pub mod system;
pub mod volumes;
