//! Request exchange and extraction layer for an ad-transparency API.
pub mod client;
pub mod exchange;
pub mod json;
pub mod library;
pub mod link;
pub mod model;
pub mod numeric;
pub mod text;
pub mod time;
pub mod token;
pub mod version;
