//! What an image registry publishes, and what of it can be switched to.

pub mod client;
pub mod detection;
pub mod metadata;
pub mod models;
pub mod search;
pub mod tags;
pub mod variants;
pub mod versions;

pub use client::RegistryClient;
pub use models::{AvailableTag, Family, ImageVersion, RegistryError, known_families};
pub use tags::strip_date_suffix;
