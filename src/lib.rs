//! Resolves a frontend build manifest into the HTML tags that load a set of
//! entrypoints, and decides whether assets come from a development server or from
//! the built output.
pub mod asset;
pub mod chunk;
pub mod config;
pub mod error;
pub mod graph;
pub mod heart_beat;
pub mod laws;
pub mod manifest;
pub mod order;
pub mod text;
pub mod utils;
pub mod vite;

pub use config::{ViteConfig, ViteMode};
pub use error::ViteError;
pub use vite::Vite;
