//! Decisions behind a coding session.
//!
//! - `product_defaults` and `bundle_loader`: the default configuration that the product owner
//!   supplies, and how it comes out of what the backend delivers. `config_laws` states what holds
//!   of it.
//! - `toml_value` and `toml_parse`: the TOML values that configuration is made of.
//! - `strict_images`: images made ready for requests in strict mode. `strict_image_laws` and
//!   `image_kind_laws` state what holds of that.
//! - `artesia`: which calls keep a conversation mirrored on the Artesia service. `artesia_laws`
//!   states what holds of the mirror.
//! - `models`: the items of a conversation.
//! - `text`: small questions about text.
pub mod artesia;
pub mod artesia_laws;
pub mod bundle_loader;
pub mod config_laws;
pub mod image_kind_laws;
pub mod models;
pub mod product_defaults;
pub mod strict_image_laws;
pub mod strict_images;
pub mod text;
pub mod toml_parse;
pub mod toml_value;
