//! Layered raster rendering for small status cards, with the emote
//! resolution rules and formatting helpers that the templates rely on.

pub mod ansi;
pub mod bignum;
pub mod bitmap;
pub mod cache;
pub mod canvas;
pub mod color;
pub mod emote;
pub mod error;
pub mod font;
pub mod formatters;
pub mod health;
pub mod layer;
pub mod numeral;
pub mod os;
pub mod pattern;
pub mod raster;
pub mod templates;
pub mod text;
pub mod time;
pub mod traits;
pub mod worker;

pub use canvas::{Canvas, ImageFormat};
pub use color::{to_rgba, Rgba};
pub use emote::{parse_all_emotes, EmoteSource};
pub use error::{AsahiError, AsahiResult, CanvasError};
pub use font::{Font, FontSet};
pub use formatters::{format_bytes, format_duration, format_timestamp};
pub use layer::Layer;
pub use time::parse_duration;
pub use worker::prefetch_emotes;
