//! Parsing of CSS/SVG `<color>` values, verified with Verus.
//!
//! The library reads hex notation, named colors, `rgb()`/`rgba()`,
//! `hsl()`/`hsla()` and `color-mix()`.
pub mod arith;
pub mod color;
pub mod color_mix;
pub mod colors;
pub mod error;
pub mod hsl;
pub mod keywords;
pub mod locality;
pub mod number;
pub mod parser;
pub mod properties;
pub mod stream;
pub mod whitespace;

pub use color::Color;
pub use color_mix::{
    compute_color_mix, interpolate_hue, mix_in_srgb, normalize_percentages, ColorSpace,
    HueInterpolation, MixRequest, FULL_TURN, HALF_TURN, HUE_DEGREE, WEIGHT_ONE,
};
pub use error::Error;
pub use number::Number;
pub use parser::{from_hex, hex_pair, short_hex};
pub use stream::{ByteClass, Stream};
